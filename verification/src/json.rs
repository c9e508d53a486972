//! JSON text and JSON values.
use vstd::prelude::*;

use crate::model::Deep;
use crate::order::{
    keys_distinguish, law_stable_sort_ignores_input_order, law_stable_sort_is_sorted_permutation,
    listing, stable_sort, stably_sorted,
    text_key, OrderKey, Ordered, Sortable, SortedSet,
};
use crate::text::{
    decimal, digit_value, hex_digit, str_before, str_eq, text_before, to_decimal,
};

verus! {

/// How a character is written inside a JSON string.
pub open spec fn json_char(c: char) -> Seq<char> {
    if c == '"' {
        seq!['\\', '"']
    } else if c == '\\' {
        seq!['\\', '\\']
    } else if c == '\u{8}' {
        seq!['\\', 'b']
    } else if c == '\u{9}' {
        seq!['\\', 't']
    } else if c == '\u{a}' {
        seq!['\\', 'n']
    } else if c == '\u{c}' {
        seq!['\\', 'f']
    } else if c == '\u{d}' {
        seq!['\\', 'r']
    } else if (c as int) < 32 {
        seq!['\\', 'u', '0', '0', hex_digit(c as int / 16), hex_digit(c as int % 16)]
    } else {
        seq![c]
    }
}

/// The characters of `s` as they are written inside a JSON string.
pub open spec fn json_chars(s: Seq<char>) -> Seq<char>
    decreases s.len(),
{
    if s.len() == 0 {
        Seq::empty()
    } else {
        json_char(s[0]) + json_chars(s.drop_first())
    }
}

/// `s` as a JSON string, with its quotation marks.
pub open spec fn json_string(s: Seq<char>) -> Seq<char> {
    seq!['"'] + json_chars(s) + seq!['"']
}

/// Writes `s` as a JSON string.
///
/// Relies on `serde_json::to_string` for `str`: the quotation mark, the
/// reverse solidus and the control characters below U+0020 are escaped, by
/// their short form where they have one and as `\u00xx` in lower case
/// otherwise; every other character stands for itself.
#[verifier::external_body]
pub(crate) fn quote_json(s: &str) -> (r: String)
    ensures
        r@ == json_string(s@),
{
    serde_json::to_string(s).unwrap()
}

proof fn lemma_json_chars_injective(a: Seq<char>, b: Seq<char>)
    requires
        json_chars(a) == json_chars(b),
    ensures
        a == b,
    decreases a.len() + b.len(),
{
    if a.len() == 0 {
        if b.len() > 0 {
            assert(json_char(b[0]).len() > 0);
            assert(json_chars(b).len() > 0);
        }
        assert(a =~= b);
    } else if b.len() == 0 {
        assert(json_char(a[0]).len() > 0);
        assert(json_chars(a).len() > 0);
    } else {
        let x = json_chars(a);
        let y = json_chars(b);
        let p = json_char(a[0]);
        let q = json_char(b[0]);
        assert forall|k: int| 0 <= k < p.len() implies x[k] == p[k] by {}
        assert forall|k: int| 0 <= k < q.len() implies y[k] == q[k] by {}
        assert(x[0] == y[0]);
        assert(p.len() >= 2 ==> x[1] == p[1]);
        assert(q.len() >= 2 ==> y[1] == q[1]);
        assert(p.len() >= 6 ==> x[4] == p[4] && x[5] == p[5]);
        assert(q.len() >= 6 ==> y[4] == q[4] && y[5] == q[5]);
        lemma_json_char_injective(a[0], b[0]);
        assert(json_chars(a.drop_first()) =~= x.skip(p.len() as int));
        assert(json_chars(b.drop_first()) =~= y.skip(q.len() as int));
        lemma_json_chars_injective(a.drop_first(), b.drop_first());
        assert(a =~= seq![a[0]] + a.drop_first());
        assert(b =~= seq![b[0]] + b.drop_first());
    }
}

proof fn lemma_json_char_injective(c: char, d: char)
    requires
        json_char(c)[0] == json_char(d)[0],
        json_char(c).len() >= 2 && json_char(d).len() >= 2 ==> json_char(c)[1] == json_char(d)[1],
        json_char(c).len() >= 6 && json_char(d).len() >= 6 ==> json_char(c)[4] == json_char(d)[4]
            && json_char(c)[5] == json_char(d)[5],
    ensures
        c == d,
{
    let p = json_char(c);
    let q = json_char(d);
    lemma_hex_digit_injective(c as int / 16, d as int / 16);
    lemma_hex_digit_injective(c as int % 16, d as int % 16);
    if p.len() == 1 {
        assert(p[0] == c && c != '\\');
        assert(q.len() == 1);
    } else if q.len() == 1 {
        assert(q[0] == d && d != '\\');
    } else if p.len() == 6 && q.len() == 6 {
        assert(c as int == 16 * (c as int / 16) + c as int % 16);
        assert(d as int == 16 * (d as int / 16) + d as int % 16);
    }
}

proof fn lemma_hex_digit_injective(m: int, n: int)
    ensures
        0 <= m < 16 && 0 <= n < 16 && hex_digit(m) == hex_digit(n) ==> m == n,
{
}

/// Different texts are written as different JSON strings.
pub proof fn lemma_json_string_injective(a: Seq<char>, b: Seq<char>)
    requires
        json_string(a) == json_string(b),
    ensures
        a == b,
{
    let x = json_string(a);
    let y = json_string(b);
    assert(json_chars(a) =~= x.subrange(1, x.len() - 1));
    assert(json_chars(b) =~= y.subrange(1, y.len() - 1));
    lemma_json_chars_injective(a, b);
}

/// Texts joined by commas.
pub open spec fn comma_joined(items: Seq<Seq<char>>) -> Seq<char>
    decreases items.len(),
{
    if items.len() == 0 {
        Seq::empty()
    } else if items.len() == 1 {
        items[0]
    } else {
        comma_joined(items.drop_last()) + ","@ + items.last()
    }
}

/// A JSON array of already written items.
pub open spec fn json_array(items: Seq<Seq<char>>) -> Seq<char> {
    "["@ + comma_joined(items) + "]"@
}

/// A member of a JSON object, its value already written.
pub open spec fn json_member(name: Seq<char>, value: Seq<char>) -> Seq<char> {
    json_string(name) + ":"@ + value
}

/// A JSON object of already written members.
pub open spec fn json_object(members: Seq<Seq<char>>) -> Seq<char> {
    "{"@ + comma_joined(members) + "}"@
}

fn join_commas(items: &Vec<String>) -> (r: String)
    ensures
        r@ == comma_joined(items.deep_view()),
{
    let ghost all = items.deep_view();
    let mut out = String::new();
    let mut i: usize = 0;
    while i < items.len()
        invariant
            i <= items.len(),
            all == items.deep_view(),
            out@ == comma_joined(all.take(i as int)),
        decreases items.len() - i,
    {
        proof {
            let t = all.take(i as int + 1);
            assert(t.drop_last() =~= all.take(i as int));
            assert(t.last() == items@[i as int]@);
        }
        if i == 0 {
            out = items[i].clone();
        } else {
            out = out.concat(",").concat(items[i].as_str());
        }
        i = i + 1;
    }
    assert(all.take(all.len() as int) =~= all);
    out
}

pub(crate) fn write_array(items: &Vec<String>) -> (r: String)
    ensures
        r@ == json_array(items.deep_view()),
{
    "[".to_owned().concat(join_commas(items).as_str()).concat("]")
}

pub(crate) fn write_member(name: &str, value: &str) -> (r: String)
    ensures
        r@ == json_member(name@, value@),
{
    quote_json(name).concat(":").concat(value)
}

pub(crate) fn write_object(members: &Vec<String>) -> (r: String)
    ensures
        r@ == json_object(members.deep_view()),
{
    "{".to_owned().concat(join_commas(members).as_str()).concat("}")
}

/// A value with a fixed compact JSON form.
pub trait JsonText: DeepView + Sized {
    spec fn json_text(v: Self::V) -> Seq<char>;

    fn to_json(&self) -> (r: String)
        ensures
            r@ == Self::json_text(self.deep_view()),
    ;
}

impl JsonText for bool {
    open spec fn json_text(v: bool) -> Seq<char> {
        if v {
            "true"@
        } else {
            "false"@
        }
    }

    fn to_json(&self) -> (r: String) {
        if *self {
            "true".to_owned()
        } else {
            "false".to_owned()
        }
    }
}

impl JsonText for u32 {
    open spec fn json_text(v: u32) -> Seq<char> {
        decimal(v as int)
    }

    fn to_json(&self) -> (r: String) {
        to_decimal(*self as u64)
    }
}

impl JsonText for String {
    open spec fn json_text(v: Seq<char>) -> Seq<char> {
        json_string(v)
    }

    fn to_json(&self) -> (r: String) {
        quote_json(self.as_str())
    }
}

impl<T: JsonText> JsonText for Option<T> {
    open spec fn json_text(v: Option<T::V>) -> Seq<char> {
        match v {
            Some(x) => T::json_text(x),
            None => "null"@,
        }
    }

    fn to_json(&self) -> (r: String) {
        match self {
            Some(x) => x.to_json(),
            None => "null".to_owned(),
        }
    }
}

/// The JSON forms of a sequence of values.
pub open spec fn json_texts<T: JsonText>(values: Seq<T::V>) -> Seq<Seq<char>> {
    Seq::new(values.len(), |i: int| T::json_text(values[i]))
}

impl<T: JsonText> JsonText for Vec<T> {
    open spec fn json_text(v: Seq<T::V>) -> Seq<char> {
        json_array(json_texts::<T>(v))
    }

    fn to_json(&self) -> (r: String) {
        let mut items: Vec<String> = Vec::new();
        let mut i: usize = 0;
        while i < self.len()
            invariant
                i <= self.len(),
                items.len() == i,
                forall|j: int|
                    0 <= j < i ==> (#[trigger] items@[j])@ == T::json_text(self@[j].deep_view()),
            decreases self.len() - i,
        {
            items.push(self[i].to_json());
            i = i + 1;
        }
        assert(items.deep_view() =~= json_texts::<T>(self.deep_view()));
        assert(<Vec<T> as JsonText>::json_text(self.deep_view()) == json_array(
            json_texts::<T>(self.deep_view()),
        ));
        write_array(&items)
    }
}

impl<T: JsonText + Ordered> JsonText for SortedSet<T> {
    open spec fn json_text(v: Set<T::V>) -> Seq<char> {
        json_array(json_texts::<T>(listing::<T>(v)))
    }

    fn to_json(&self) -> (r: String) {
        self.as_vec().to_json()
    }
}

/// A JSON number, as it was written: a non-negative or negative integer, or
/// the bits of a double.
#[derive(Debug, Clone, Copy, PartialEq, Eq, Structural)]
pub enum JsonNumber {
    Positive(u64),
    Negative(i64),
    Double(u64),
}

/// A JSON value. An object's members are listed in order, each name once.
#[derive(Debug, PartialEq, Eq)]
pub enum Json {
    Null,
    Bool(bool),
    Number(JsonNumber),
    Text(String),
    Array(Vec<Json>),
    Object(Vec<(String, Json)>),
}

/// The mathematical value of a [`Json`].
#[verifier::ext_equal]
pub enum JsonModel {
    Null,
    Bool(bool),
    Number(JsonNumber),
    Text(Seq<char>),
    Array(Seq<JsonModel>),
    Object(Seq<(Seq<char>, JsonModel)>),
}

pub open spec fn json_model(j: Json) -> JsonModel
    decreases j,
{
    match j {
        Json::Null => JsonModel::Null,
        Json::Bool(b) => JsonModel::Bool(b),
        Json::Number(n) => JsonModel::Number(n),
        Json::Text(s) => JsonModel::Text(s@),
        Json::Array(v) => JsonModel::Array(
            Seq::new(
                v@.len(),
                |i: int|
                    if 0 <= i < v@.len() {
                        json_model(v@[i])
                    } else {
                        JsonModel::Null
                    },
            ),
        ),
        Json::Object(v) => JsonModel::Object(
            Seq::new(
                v@.len(),
                |i: int|
                    if 0 <= i < v@.len() {
                        (v@[i].0@, json_model(v@[i].1))
                    } else {
                        (Seq::empty(), JsonModel::Null)
                    },
            ),
        ),
    }
}

impl DeepView for Json {
    type V = JsonModel;

    open spec fn deep_view(&self) -> JsonModel {
        json_model(*self)
    }
}

impl Deep for Json {
    fn deep_clone(&self) -> (r: Self) {
        json_clone(self)
    }

    fn deep_eq(&self, other: &Self) -> (r: bool) {
        json_eq(self, other)
    }
}

impl Clone for Json {
    fn clone(&self) -> (r: Self)
        ensures
            r.deep_view() == self.deep_view(),
    {
        json_clone(self)
    }
}

fn json_clone(j: &Json) -> (r: Json)
    ensures
        json_model(r) == json_model(*j),
    decreases j,
{
    match j {
        Json::Null => Json::Null,
        Json::Bool(b) => Json::Bool(*b),
        Json::Number(n) => Json::Number(*n),
        Json::Text(s) => Json::Text(s.clone()),
        Json::Array(v) => {
            let mut out: Vec<Json> = Vec::new();
            let mut i: usize = 0;
            while i < v.len()
                invariant
                    i <= v.len(),
                    *j == Json::Array(*v),
                    out.len() == i,
                    forall|k: int|
                        0 <= k < i ==> json_model(#[trigger] out@[k]) == json_model(v@[k]),
                decreases v.len() - i,
            {
                assert(decreases_to!(*j => (*j)->Array_0));
                assert(decreases_to!(*v => v@[i as int]));
                out.push(json_clone(&v[i]));
                i = i + 1;
            }
            let r = Json::Array(out);
            assert(json_model(r)->Array_0 =~= json_model(*j)->Array_0);
            r
        },
        Json::Object(v) => {
            let mut out: Vec<(String, Json)> = Vec::new();
            let mut i: usize = 0;
            while i < v.len()
                invariant
                    i <= v.len(),
                    *j == Json::Object(*v),
                    out.len() == i,
                    forall|k: int|
                        0 <= k < i ==> (#[trigger] out@[k]).0@ == v@[k].0@ && json_model(out@[k].1)
                            == json_model(v@[k].1),
                decreases v.len() - i,
            {
                assert(decreases_to!(*j => (*j)->Object_0));
                assert(decreases_to!(*v => v@[i as int]));
                out.push((v[i].0.clone(), json_clone(&v[i].1)));
                i = i + 1;
            }
            let r = Json::Object(out);
            assert(json_model(r)->Object_0 =~= json_model(*j)->Object_0);
            r
        },
    }
}

fn json_eq(a: &Json, b: &Json) -> (r: bool)
    ensures
        r == (json_model(*a) == json_model(*b)),
    decreases a,
{
    match (a, b) {
        (Json::Null, Json::Null) => true,
        (Json::Bool(x), Json::Bool(y)) => *x == *y,
        (Json::Number(x), Json::Number(y)) => *x == *y,
        (Json::Text(x), Json::Text(y)) => *x == *y,
        (Json::Array(v), Json::Array(w)) => {
            if v.len() != w.len() {
                assert(json_model(*a)->Array_0.len() != json_model(*b)->Array_0.len());
                return false;
            }
            let mut i: usize = 0;
            while i < v.len()
                invariant
                    i <= v.len(),
                    v.len() == w.len(),
                    *a == Json::Array(*v),
                    *b == Json::Array(*w),
                    forall|k: int|
                        0 <= k < i ==> json_model(#[trigger] v@[k]) == json_model(w@[k]),
                decreases v.len() - i,
            {
                if !json_eq(&v[i], &w[i]) {
                    assert(json_model(*a)->Array_0[i as int] != json_model(*b)->Array_0[i as int]);
                    return false;
                }
                i = i + 1;
            }
            assert(json_model(*a)->Array_0 =~= json_model(*b)->Array_0);
            true
        },
        (Json::Object(v), Json::Object(w)) => {
            if v.len() != w.len() {
                assert(json_model(*a)->Object_0.len() != json_model(*b)->Object_0.len());
                return false;
            }
            let mut i: usize = 0;
            while i < v.len()
                invariant
                    i <= v.len(),
                    v.len() == w.len(),
                    *a == Json::Object(*v),
                    *b == Json::Object(*w),
                    forall|k: int|
                        0 <= k < i ==> (#[trigger] v@[k]).0@ == w@[k].0@ && json_model(v@[k].1)
                            == json_model(w@[k].1),
                decreases v.len() - i,
            {
                if !(v[i].0 == w[i].0) || !json_eq(&v[i].1, &w[i].1) {
                    assert(json_model(*a)->Object_0[i as int] != json_model(*b)->Object_0[i
                        as int]);
                    return false;
                }
                i = i + 1;
            }
            assert(json_model(*a)->Object_0 =~= json_model(*b)->Object_0);
            true
        },
        _ => false,
    }
}

/// The value of the first member of a name.
pub open spec fn member_value(members: Seq<(Seq<char>, JsonModel)>, name: Seq<char>) -> Option<
    JsonModel,
>
    decreases members.len(),
{
    if members.len() == 0 {
        None
    } else if members[0].0 == name {
        Some(members[0].1)
    } else {
        member_value(members.drop_first(), name)
    }
}

/// The member of an object, if the value is an object that has it.
pub open spec fn json_get(j: JsonModel, name: Seq<char>) -> Option<JsonModel> {
    match j {
        JsonModel::Object(members) => member_value(members, name),
        _ => None,
    }
}

impl Json {
    /// The member of an object, if this is an object that has it.
    pub fn get(&self, name: &str) -> (r: Option<&Json>)
        ensures
            match r {
                Some(v) => json_get(self.deep_view(), name@) == Some(v.deep_view()),
                None => json_get(self.deep_view(), name@) is None,
            },
    {
        match self {
            Json::Object(v) => {
                let ghost all = self.deep_view()->Object_0;
                let mut i: usize = 0;
                assert(all.skip(0) =~= all);
                while i < v.len()
                    invariant
                        i <= v.len(),
                        *self == Json::Object(*v),
                        self.deep_view() == JsonModel::Object(all),
                        all.len() == v.len(),
                        member_value(all, name@) == member_value(all.skip(i as int), name@),
                    decreases v.len() - i,
                {
                    assert(all.skip(i as int)[0] == (v@[i as int].0@, json_model(v@[i as int].1)));
                    if str_eq(v[i].0.as_str(), name) {
                        return Some(&v[i].1);
                    }
                    assert(all.skip(i as int).drop_first() =~= all.skip(i as int + 1));
                    i = i + 1;
                }
                None
            },
            _ => None,
        }
    }

    /// The text of a JSON string.
    pub fn as_str(&self) -> (r: Option<&str>)
        ensures
            match r {
                Some(s) => self.deep_view() == JsonModel::Text(s@),
                None => !(self.deep_view() is Text),
            },
    {
        match self {
            Json::Text(s) => Some(s.as_str()),
            _ => None,
        }
    }
}

impl Sortable for (String, Json) {
    open spec fn sort_key(v: (Seq<char>, JsonModel)) -> OrderKey {
        text_key(v.0)
    }

    fn sorts_before(&self, other: &Self) -> (r: bool) {
        str_before(self.0.as_str(), other.0.as_str())
    }
}

/// A value with the members of every object in it sorted by name.
pub open spec fn canonical_json(j: JsonModel) -> JsonModel
    decreases j,
{
    match j {
        JsonModel::Array(items) => JsonModel::Array(
            Seq::new(
                items.len(),
                |i: int|
                    if 0 <= i < items.len() {
                        canonical_json(items[i])
                    } else {
                        JsonModel::Null
                    },
            ),
        ),
        JsonModel::Object(members) => JsonModel::Object(
            stably_sorted::<(String, Json)>(canonical_members(members)),
        ),
        _ => j,
    }
}

/// The members of an object, in order, each with its value made canonical.
pub open spec fn canonical_members(members: Seq<(Seq<char>, JsonModel)>) -> Seq<
    (Seq<char>, JsonModel),
>
    decreases members,
{
    if members.len() == 0 {
        Seq::empty()
    } else {
        canonical_members(members.drop_last()).push(
            (members.last().0, canonical_json(members.last().1)),
        )
    }
}

proof fn lemma_canonical_members(members: Seq<(Seq<char>, JsonModel)>)
    ensures
        canonical_members(members).len() == members.len(),
        forall|i: int|
            0 <= i < members.len() ==> #[trigger] canonical_members(members)[i] == (
                members[i].0,
                canonical_json(members[i].1),
            ),
    decreases members.len(),
{
    if members.len() > 0 {
        lemma_canonical_members(members.drop_last());
    }
}

fn canonical_copy(j: &Json) -> (r: Json)
    ensures
        r.deep_view() == canonical_json(j.deep_view()),
    decreases j,
{
    match j {
        Json::Array(v) => {
            let ghost items = json_model(*j)->Array_0;
            let mut out: Vec<Json> = Vec::new();
            let mut i: usize = 0;
            while i < v.len()
                invariant
                    i <= v.len(),
                    *j == Json::Array(*v),
                    json_model(*j) == JsonModel::Array(items),
                    out.len() == i,
                    forall|k: int|
                        0 <= k < i ==> json_model(#[trigger] out@[k]) == canonical_json(items[k]),
                decreases v.len() - i,
            {
                assert(decreases_to!(*j => (*j)->Array_0));
                assert(decreases_to!(*v => v@[i as int]));
                assert(items[i as int] == json_model(v@[i as int]));
                out.push(canonical_copy(&v[i]));
                i = i + 1;
            }
            let r = Json::Array(out);
            assert(json_model(r)->Array_0 =~= canonical_json(json_model(*j))->Array_0);
            r
        },
        Json::Object(v) => {
            let ghost members = json_model(*j)->Object_0;
            let mut out: Vec<(String, Json)> = Vec::new();
            let mut i: usize = 0;
            while i < v.len()
                invariant
                    i <= v.len(),
                    *j == Json::Object(*v),
                    json_model(*j) == JsonModel::Object(members),
                    out.len() == i,
                    forall|k: int|
                        0 <= k < i ==> (#[trigger] out@[k]).0@ == members[k].0 && json_model(
                            out@[k].1,
                        ) == canonical_json(members[k].1),
                decreases v.len() - i,
            {
                assert(decreases_to!(*j => (*j)->Object_0));
                assert(decreases_to!(*v => v@[i as int]));
                assert(members[i as int] == (v@[i as int].0@, json_model(v@[i as int].1)));
                out.push((v[i].0.clone(), canonical_copy(&v[i].1)));
                i = i + 1;
            }
            proof {
                lemma_canonical_members(members);
            }
            assert(out.deep_view() =~= canonical_members(members));
            let sorted = stable_sort(out);
            let r = Json::Object(sorted);
            assert(json_model(r)->Object_0 =~= sorted.deep_view());
            r
        },
        Json::Null => Json::Null,
        Json::Bool(b) => Json::Bool(*b),
        Json::Number(n) => Json::Number(*n),
        Json::Text(s) => Json::Text(s.clone()),
    }
}

/// The value with the members of every object in it sorted by name, so that
/// equal values are written alike.
pub fn canonicalize_value(value: Json) -> (r: Json)
    ensures
        r.deep_view() == canonical_json(value.deep_view()),
{
    canonical_copy(&value)
}

/// Whether no two members have the same name.
pub open spec fn distinct_names(members: Seq<(Seq<char>, JsonModel)>) -> bool {
    forall|i: int, j: int|
        0 <= i < members.len() && 0 <= j < members.len() && i != j ==> (#[trigger] members[i]).0
            != (#[trigger] members[j]).0
}

/// The canonical form of an object depends on its members and not on the
/// order they are listed in.
pub proof fn law_canonical_form_ignores_member_order(
    a: Seq<(Seq<char>, JsonModel)>,
    b: Seq<(Seq<char>, JsonModel)>,
)
    requires
        distinct_names(a),
        distinct_names(b),
        a.to_set() == b.to_set(),
    ensures
        canonical_json(JsonModel::Object(a)) == canonical_json(JsonModel::Object(b)),
{
    let ca = canonical_members(a);
    let cb = canonical_members(b);
    lemma_canonical_members(a);
    lemma_canonical_members(b);
    assert forall|x: (Seq<char>, JsonModel)| ca.contains(x) implies cb.contains(x) by {
        let i = choose|i: int| 0 <= i < ca.len() && ca[i] == x;
        assert(a.to_set().contains(a[i]));
        let j = choose|j: int| 0 <= j < b.len() && b[j] == a[i];
        assert(cb[j] == x);
    }
    assert forall|x: (Seq<char>, JsonModel)| cb.contains(x) implies ca.contains(x) by {
        let i = choose|i: int| 0 <= i < cb.len() && cb[i] == x;
        assert(b.to_set().contains(b[i]));
        let j = choose|j: int| 0 <= j < a.len() && a[j] == b[i];
        assert(ca[j] == x);
    }
    assert forall|i: int, j: int| 0 <= i < ca.len() && 0 <= j < ca.len() && i != j implies ca[i]
        != ca[j] by {
        assert(a[i].0 != a[j].0);
    }
    assert forall|i: int, j: int| 0 <= i < cb.len() && 0 <= j < cb.len() && i != j implies cb[i]
        != cb[j] by {
        assert(b[i].0 != b[j].0);
    }
    ca.lemma_multiset_has_no_duplicates();
    cb.lemma_multiset_has_no_duplicates();
    ca.to_multiset_ensures();
    cb.to_multiset_ensures();
    assert forall|x: (Seq<char>, JsonModel)| ca.to_multiset().count(x) == cb.to_multiset().count(
        x,
    ) by {
        assert(ca.contains(x) == cb.contains(x));
        assert(ca.contains(x) <==> ca.to_multiset().count(x) > 0);
        assert(cb.contains(x) <==> cb.to_multiset().count(x) > 0);
        if ca.contains(x) {
            assert(ca.to_multiset().contains(x));
            assert(cb.to_multiset().contains(x));
        }
    }
    assert(ca.to_multiset() =~= cb.to_multiset());
    assert(keys_distinguish::<(String, Json)>(ca)) by {
        assert forall|i: int, j: int|
            #![trigger ca[i], ca[j]]
            0 <= i < ca.len() && 0 <= j < ca.len() && <(String, Json) as Sortable>::sort_key(ca[i])
                == <(String, Json) as Sortable>::sort_key(ca[j]) implies ca[i] == ca[j] by {
            if i != j {
                assert(a[i].0 != a[j].0);
            }
        }
    }
    law_stable_sort_ignores_input_order::<(String, Json)>(ca, cb);
}

/// What the letter after a backslash stands for.
pub open spec fn escape_meaning(letter: char) -> Option<int> {
    if letter == '"' {
        Some(34)
    } else if letter == '\\' {
        Some(92)
    } else if letter == 'b' {
        Some(8)
    } else if letter == 't' {
        Some(9)
    } else if letter == 'n' {
        Some(10)
    } else if letter == 'f' {
        Some(12)
    } else if letter == 'r' {
        Some(13)
    } else {
        None
    }
}

/// Whether a piece of JSON text stands for a character: it is the character,
/// where that needs no escape, or a backslash with its letter, or a backslash
/// with four hexadecimal digits.
pub open spec fn stands_for(text: Seq<char>, c: char) -> bool {
    ||| text.len() == 1 && text[0] == c && c as int >= 32 && c != '"' && c != '\\'
    ||| text.len() == 2 && text[0] == '\\' && escape_meaning(text[1]) == Some(c as int)
    ||| text.len() == 6 && text[0] == '\\' && text[1] == 'u' && text[2] == '0' && text[3] == '0'
        && 16 * digit_value(text[4]) + digit_value(text[5]) == c as int
}

/// Each character of a string is written as a piece of JSON text that stands
/// for it, and takes the short form where there is one.
pub proof fn law_characters_are_written_as_json(c: char)
    ensures
        stands_for(json_char(c), c),
        json_char(c).len() == 6 ==> c as int != 8 && c as int != 9 && c as int != 10 && c as int
            != 12 && c as int != 13,
{
}

/// A string is its characters, one after the other, in quotes.
pub proof fn law_strings_are_written_character_by_character(s: Seq<char>, t: Seq<char>)
    ensures
        json_chars(s + t) == json_chars(s) + json_chars(t),
        json_string(s).len() == json_chars(s).len() + 2,
        json_string(s)[0] == '"',
        json_string(s).last() == '"',
        s.len() == 1 ==> json_chars(s) == json_char(s[0]),
    decreases s.len(),
{
    reveal_with_fuel(json_chars, 2);
    if s.len() == 0 {
        assert(s + t =~= t);
        assert(json_chars(s) + json_chars(t) =~= json_chars(t));
    } else {
        let rest = s.drop_first();
        law_strings_are_written_character_by_character(rest, t);
        assert((s + t).drop_first() =~= rest + t);
        assert((s + t)[0] == s[0]);
        assert(json_char(s[0]) + (json_chars(rest) + json_chars(t)) =~= (json_char(s[0])
            + json_chars(rest)) + json_chars(t));
        if s.len() == 1 {
            assert(rest =~= Seq::<char>::empty());
            assert(json_char(s[0]) + Seq::<char>::empty() =~= json_char(s[0]));
        }
    }
}

/// A member is looked up by its name, and the first of that name counts.
pub proof fn law_first_member_counts(
    members: Seq<(Seq<char>, JsonModel)>,
    name: Seq<char>,
    i: int,
)
    ensures
        (0 <= i < members.len() && members[i].0 == name && forall|j: int|
            0 <= j < i ==> (#[trigger] members[j]).0 != name) ==> json_get(
            JsonModel::Object(members),
            name,
        ) == Some(members[i].1),
        (forall|j: int| 0 <= j < members.len() ==> (#[trigger] members[j]).0 != name) ==> json_get(
            JsonModel::Object(members),
            name,
        ) is None,
    decreases members.len(),
{
    if members.len() > 0 {
        let rest = members.drop_first();
        law_first_member_counts(rest, name, i - 1);
        if 0 < i < members.len() && members[i].0 == name && forall|j: int|
            0 <= j < i ==> (#[trigger] members[j]).0 != name {
            assert(members[0].0 != name);
            assert(rest[i - 1] == members[i]);
            assert forall|j: int| 0 <= j < i - 1 implies (#[trigger] rest[j]).0 != name by {
                assert(rest[j] == members[j + 1]);
            }
        }
        if forall|j: int| 0 <= j < members.len() ==> (#[trigger] members[j]).0 != name {
            assert(members[0].0 != name);
            assert forall|j: int| 0 <= j < rest.len() implies (#[trigger] rest[j]).0 != name by {
                assert(rest[j] == members[j + 1]);
            }
        }
    }
}

/// The canonical form of a value. Numbers, texts and the like stay as they are;
/// arrays keep their order, with each item in its own canonical form; objects
/// keep their members, each in its own canonical form, ordered by name.
pub proof fn law_canonical_form_orders_members_only(j: JsonModel)
    ensures
        match j {
            JsonModel::Array(items) => canonical_json(j) matches JsonModel::Array(c) && c.len()
                == items.len() && forall|i: int|
                0 <= i < items.len() ==> #[trigger] c[i] == canonical_json(items[i]),
            JsonModel::Object(members) => canonical_json(j) matches JsonModel::Object(c)
                && c.to_multiset() == members.map_values(
                |m: (Seq<char>, JsonModel)| (m.0, canonical_json(m.1)),
            ).to_multiset() && forall|i: int, k: int|
                #![trigger c[i], c[k]]
                0 <= i < k < c.len() ==> !text_before(c[k].0, c[i].0),
            _ => canonical_json(j) == j,
        },
{
    match j {
        JsonModel::Object(members) => {
            lemma_canonical_members(members);
            let each = members.map_values(
                |m: (Seq<char>, JsonModel)| (m.0, canonical_json(m.1)),
            );
            assert(canonical_members(members) =~= each);
            law_stable_sort_is_sorted_permutation::<(String, Json)>(canonical_members(members));
            let c = stably_sorted::<(String, Json)>(canonical_members(members));
            assert forall|i: int, k: int|
                #![trigger c[i], c[k]]
                0 <= i < k < c.len() implies !text_before(c[k].0, c[i].0) by {
                assert(!crate::order::key_before(
                    <(String, Json) as Sortable>::sort_key(c[k]),
                    <(String, Json) as Sortable>::sort_key(c[i]),
                ));
            }
        },
        _ => {},
    }
}

} // verus!
