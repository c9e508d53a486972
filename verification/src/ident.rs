//! Universally unique identifiers.
use vstd::prelude::*;

use crate::model::Deep;
use crate::text::{digit_value, hex_digit};

verus! {

/// A 128-bit identifier. Its order is the order of its big-endian bytes.
#[derive(Debug, Clone, Copy, PartialEq, Eq, PartialOrd, Ord, Hash, Structural)]
pub struct Uuid(pub u128);

impl DeepView for Uuid {
    type V = Uuid;

    open spec fn deep_view(&self) -> Uuid {
        *self
    }
}

impl Deep for Uuid {
    fn deep_clone(&self) -> (r: Self) {
        *self
    }

    fn deep_eq(&self, other: &Self) -> (r: bool) {
        *self == *other
    }
}

/// The lowest `digits` hexadecimal digits of `n`.
pub open spec fn hex_number(n: int, digits: nat) -> Seq<char>
    decreases digits,
{
    if digits == 0 {
        Seq::empty()
    } else {
        hex_number(n / 16, (digits - 1) as nat) + seq![hex_digit(n % 16)]
    }
}

/// The hyphenated lower-case form of an identifier.
pub open spec fn uuid_text(id: Uuid) -> Seq<char> {
    let h = hex_number(id.0 as int, 32);
    h.subrange(0, 8) + seq!['-'] + h.subrange(8, 12) + seq!['-'] + h.subrange(12, 16) + seq!['-']
        + h.subrange(16, 20) + seq!['-'] + h.subrange(20, 32)
}

/// Formats an identifier.
///
/// Relies on the `Display` of `uuid::Uuid`: thirty-two lower-case hexadecimal
/// digits, most significant first, in groups of 8, 4, 4, 4 and 12 joined by
/// hyphens.
#[verifier::external_body]
fn format_uuid(id: u128) -> (r: String)
    ensures
        r@ == uuid_text(Uuid(id)),
{
    uuid::Uuid::from_u128(id).to_string()
}

/// The name-based (version 5) identifier of a name within a namespace.
pub uninterp spec fn uuid_v5(namespace: u128, name: Seq<u8>) -> u128;

/// Derives a name-based identifier.
///
/// Relies on `uuid::Uuid::new_v5`, whose result is named [`uuid_v5`]: it
/// depends on the namespace and the name alone.
#[verifier::external_body]
fn derive_uuid(namespace: u128, name: &[u8]) -> (r: u128)
    ensures
        r == uuid_v5(namespace, name@),
{
    uuid::Uuid::new_v5(&uuid::Uuid::from_u128(namespace), name).as_u128()
}

impl Uuid {
    pub fn from_u128(bits: u128) -> (r: Uuid)
        ensures
            r == Uuid(bits),
    {
        Uuid(bits)
    }

    pub fn as_u128(&self) -> (r: u128)
        ensures
            r == self.0,
    {
        self.0
    }

    /// The identifier named by `name` within `namespace`.
    pub fn new_v5(namespace: &Uuid, name: &[u8]) -> (r: Uuid)
        ensures
            r == Uuid(uuid_v5(namespace.0, name@)),
    {
        Uuid(derive_uuid(namespace.0, name))
    }

    /// The hyphenated lower-case form.
    pub fn to_text(&self) -> (r: String)
        ensures
            r@ == uuid_text(*self),
    {
        format_uuid(self.0)
    }
}

/// The number that hexadecimal digits stand for.
pub open spec fn value_of(digits: Seq<char>) -> int
    decreases digits.len(),
{
    if digits.len() == 0 {
        0
    } else {
        16 * value_of(digits.drop_last()) + digit_value(digits.last())
    }
}

spec fn sixteens(n: nat) -> int
    decreases n,
{
    if n == 0 {
        1
    } else {
        16 * sixteens((n - 1) as nat)
    }
}

proof fn lemma_hex_value(n: int, digits: nat)
    requires
        0 <= n < sixteens(digits),
    ensures
        hex_number(n, digits).len() == digits,
        value_of(hex_number(n, digits)) == n,
    decreases digits,
{
    if digits > 0 {
        let d = hex_number(n, digits);
        lemma_hex_value(n / 16, (digits - 1) as nat);
        assert(d.drop_last() =~= hex_number(n / 16, (digits - 1) as nat));
        assert(d.last() == hex_digit(n % 16));
    }
}

/// The thirty-two hexadecimal digits of a written identifier.
pub open spec fn digits_of(text: Seq<char>) -> Seq<char> {
    text.subrange(0, 8) + text.subrange(9, 13) + text.subrange(14, 18) + text.subrange(19, 23)
        + text.subrange(24, 36)
}

/// An identifier is written as thirty-two hexadecimal digits that stand for it,
/// in five groups set apart by dashes.
pub proof fn law_identifiers_are_written_in_full(id: Uuid)
    ensures
        uuid_text(id).len() == 36,
        uuid_text(id)[8] == '-',
        uuid_text(id)[13] == '-',
        uuid_text(id)[18] == '-',
        uuid_text(id)[23] == '-',
        value_of(digits_of(uuid_text(id))) == id.0,
{
    reveal_with_fuel(sixteens, 33);
    assert(sixteens(32) == 0x1_0000_0000_0000_0000_0000_0000_0000_0000int);
    lemma_hex_value(id.0 as int, 32);
    let h = hex_number(id.0 as int, 32);
    let t = uuid_text(id);
    assert(digits_of(t) =~= h);
}

/// Different identifiers are written differently.
pub proof fn law_identifiers_are_told_apart(a: Uuid, b: Uuid)
    requires
        uuid_text(a) == uuid_text(b),
    ensures
        a == b,
{
    law_identifiers_are_written_in_full(a);
    law_identifiers_are_written_in_full(b);
}

} // verus!
