//! Gates on data leaving the device. They are closed unless opened explicitly.
use vstd::prelude::*;

use crate::text::{ascii_lowercase, eq_ignoring_ascii_case, str_eq};

verus! {

/// The variable that opens cloud synchronisation.
pub const CLOUD_SYNC_ENV_VAR: &'static str = "FORNAX_CLOUD_SYNC_ENABLED";

/// The variable that opens longitudinal collection.
pub const LONGITUDINAL_ENV_VAR: &'static str = "FORNAX_LONGITUDINAL_COLLECTION_ENABLED";

/// Whether a value opens a gate: `1`, or `true` in any mix of cases.
pub open spec fn opens_gate(value: Seq<char>) -> bool {
    value == "1"@ || ascii_lowercase(value) == ascii_lowercase("true"@)
}

/// Whether a value opens a gate.
pub fn gate_opened(value: &str) -> (r: bool)
    ensures
        r == opens_gate(value@),
{
    str_eq(value, "1") || eq_ignoring_ascii_case(value, "true")
}

/// Whether cloud synchronisation is allowed, given the value of
/// [`CLOUD_SYNC_ENV_VAR`] if it is set.
pub fn cloud_sync_allowed(value: Option<&str>) -> (r: bool)
    ensures
        r == (value is Some && opens_gate(value.unwrap()@)),
{
    match value {
        Some(v) => gate_opened(v),
        None => false,
    }
}

/// Whether longitudinal reliability data may be collected, given the value of
/// [`LONGITUDINAL_ENV_VAR`] if it is set.
pub fn longitudinal_reliability_collection_allowed(value: Option<&str>) -> (r: bool)
    ensures
        r == (value is Some && opens_gate(value.unwrap()@)),
{
    match value {
        Some(v) => gate_opened(v),
        None => false,
    }
}

/// Whether two characters are the same, letter case of ASCII aside.
pub open spec fn same_letter(c: char, lower: char) -> bool {
    c == lower || (97 <= lower as int <= 122 && c as int + 32 == lower as int)
}

/// A gate is opened by the digit one and by the word true, in any letter case,
/// and by nothing else.
pub proof fn law_gates_open_for_one_and_true(value: Seq<char>)
    ensures
        opens_gate(value) <==> (value.len() == 1 && value[0] == '1') || (value.len() == 4
            && same_letter(value[0], 't') && same_letter(value[1], 'r') && same_letter(
            value[2],
            'u',
        ) && same_letter(value[3], 'e')),
{
    reveal_strlit("1");
    reveal_strlit("true");
    let word = ascii_lowercase("true"@);
    assert("true"@.len() == 4 && "true"@[0] == 't' && "true"@[1] == 'r' && "true"@[2] == 'u'
        && "true"@[3] == 'e');
    assert(word =~= "true"@);
    assert("1"@.len() == 1 && "1"@[0] == '1');
    if value.len() == 1 && value[0] == '1' {
        assert(value =~= "1"@);
    }
    let lower = ascii_lowercase(value);
    assert(lower.len() == value.len());
    if value.len() == 4 {
        assert forall|i: int| 0 <= i < 4 implies (lower[i] == word[i]) == same_letter(
            #[trigger] value[i],
            word[i],
        ) by {}
        assert(same_letter(value[0], word[0]) && same_letter(value[1], word[1]) && same_letter(
            value[2],
            word[2],
        ) && same_letter(value[3], word[3]) ==> lower =~= word);
        if lower == word {
            assert(lower[0] == word[0] && lower[1] == word[1] && lower[2] == word[2] && lower[3]
                == word[3]);
            assert(same_letter(value[0], word[0]) && same_letter(value[1], word[1])
                && same_letter(value[2], word[2]) && same_letter(value[3], word[3]));
        }
    }
}

} // verus!
