//! Validation of interactive input.
//!
//! The prompts themselves belong to the program around the library; the
//! decision whether an entered value is acceptable is made here.

use vstd::prelude::*;
use crate::text::{split_char, split_on, trim, trim_spec};

verus! {

/// Accepts any input that holds at least one printable character.
pub struct EmptyOrWhitespaceValidator {
    pub message: String,
}

/// Accepts a comma-separated list of non-blank values.
pub struct CommaListValidator {
    pub message: String,
}

impl Default for EmptyOrWhitespaceValidator {
    /// The validator with its standard refusal message.
    fn default() -> (r: EmptyOrWhitespaceValidator)
        ensures
            r.message@ == "Value must consist of printable characters"@,
    {
        EmptyOrWhitespaceValidator {
            message: String::from_str("Value must consist of printable characters"),
        }
    }
}

impl Default for CommaListValidator {
    /// The validator with its standard refusal message.
    fn default() -> (r: CommaListValidator)
        ensures
            r.message@ == "Requires comma-separated, non-empty values."@,
    {
        CommaListValidator {
            message: String::from_str("Requires comma-separated, non-empty values."),
        }
    }
}

impl EmptyOrWhitespaceValidator {
    /// Whether the input is acceptable: it must not be empty or all
    /// whitespace.
    pub fn validate(&self, input: &str) -> (r: bool)
        ensures
            r == (trim_spec(input@).len() != 0),
    {
        let t = trim(input);
        t.unicode_len() != 0
    }
}

impl CommaListValidator {
    /// Whether the input is acceptable: split at commas, every value must
    /// hold at least one printable character.
    #[verifier::loop_isolation(false)]
    pub fn validate(&self, input: &str) -> (r: bool)
        ensures
            r == (forall|k: int|
                0 <= k < split_on(input@, ',').len() ==> trim_spec(
                    #[trigger] split_on(input@, ',')[k],
                ).len() != 0),
    {
        let values = split_char(input, ',');
        let ghost vv = split_on(input@, ',');
        let mut k: usize = 0;
        while k < values.len()
            invariant
                0 <= k <= vv.len(),
                values@.map(|i: int, s: String| s@) == vv,
                values@.len() == vv.len(),
                forall|j: int| 0 <= j < k ==> trim_spec(#[trigger] vv[j]).len() != 0,
            decreases vv.len() - k,
        {
            proof {
                assert(values@[k as int]@ == vv[k as int]);
            }
            if trim(values[k].as_str()).unicode_len() == 0 {
                return false;
            }
            k = k + 1;
        }
        true
    }
}

} // verus!
