//! The switch for coarse wall-clock profiling (`RIB_PROFILE`).

use vstd::prelude::*;

verus! {

/// ASCII lower-casing of one byte; other bytes are unchanged.
pub open spec fn ascii_lower(b: u8) -> u8 {
    if 65 <= b <= 90 {
        (b + 32) as u8
    } else {
        b
    }
}

/// The two byte strings are equal once ASCII letters are lower-cased.
pub open spec fn eq_ignore_ascii_case(a: Seq<u8>, b: Seq<u8>) -> bool {
    a.len() == b.len() && forall|i: int| 0 <= i < a.len() ==> ascii_lower(#[trigger] a[i]) == ascii_lower(b[i])
}

/// The values of `RIB_PROFILE` that switch profiling on: `1`, `true` or
/// `yes` (the byte values below are those ASCII letters),
/// in any ASCII case.
pub open spec fn spec_profile_flag_enabled(value: Seq<u8>) -> bool {
    ||| eq_ignore_ascii_case(value, seq![49u8])
    ||| eq_ignore_ascii_case(value, seq![116u8, 114u8, 117u8, 101u8])
    ||| eq_ignore_ascii_case(value, seq![121u8, 101u8, 115u8])
}

fn lower_byte(b: u8) -> (r: u8)
    ensures
        r == ascii_lower(b),
{
    if 65 <= b && b <= 90 {
        b + 32
    } else {
        b
    }
}

/// Compares a byte string with a lower-case ASCII word, ignoring ASCII case.
fn matches_word_ignore_case(value: &[u8], word: &[u8]) -> (r: bool)
    ensures
        r == eq_ignore_ascii_case(value@, word@),
{
    if value.len() != word.len() {
        return false;
    }
    let mut i: usize = 0;
    while i < value.len()
        invariant
            value@.len() == word@.len(),
            i <= value@.len(),
            forall|j: int| 0 <= j < i ==> ascii_lower(#[trigger] value@[j]) == ascii_lower(word@[j]),
        decreases value@.len() - i,
    {
        if lower_byte(value[i]) != lower_byte(word[i]) {
            return false;
        }
        i = i + 1;
    }
    true
}

/// Whether the value of the `RIB_PROFILE` variable (its raw bytes) turns profiling on.
pub fn profile_flag_enabled(value: &[u8]) -> (r: bool)
    ensures
        r == spec_profile_flag_enabled(value@),
{
    let one: [u8; 1] = [49u8];
    let tru: [u8; 4] = [116u8, 114u8, 117u8, 101u8];
    let yes: [u8; 3] = [121u8, 101u8, 115u8];
    assert(one@ == seq![49u8]);
    assert(tru@ == seq![116u8, 114u8, 117u8, 101u8]);
    assert(yes@ == seq![121u8, 101u8, 115u8]);
    matches_word_ignore_case(value, &one) || matches_word_ignore_case(value, &tru)
        || matches_word_ignore_case(value, &yes)
}

} // verus!
