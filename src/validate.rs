use vstd::prelude::*;

verus! {

/// Why a text payload was rejected.
#[derive(Debug, Clone, Copy, PartialEq, Eq)]
pub enum LengthViolation {
    /// The text has no characters.
    Empty,
    /// The text has more characters than allowed.
    TooLong,
}

/// Fewest characters a todo text may have.
pub const TEXT_MIN_LEN: u64 = 1;

/// Most characters a todo text may have.
pub const TEXT_MAX_LEN: u64 = 100;

/// Whether a character count lies within the optional bounds.
pub open spec fn within_bounds(len: int, min: Option<u64>, max: Option<u64>) -> bool {
    &&& (min matches Some(m) ==> m <= len)
    &&& (max matches Some(m) ==> len <= m)
}

/// Relies on validator::validate_length on a `&String` with no exact length:
/// it counts the characters and compares them against each bound that is given.
#[verifier::external_body]
fn length_in_range(s: &String, min: Option<u64>, max: Option<u64>) -> (r: bool)
    ensures
        r == within_bounds(s@.len() as int, min, max),
{
    validator::validate_length(s, min, max, None)
}

/// What checking a todo text yields: `Ok` when it has between
/// `TEXT_MIN_LEN` and `TEXT_MAX_LEN` characters.
pub open spec fn text_check(s: Seq<char>) -> Result<(), LengthViolation> {
    if s.len() < TEXT_MIN_LEN {
        Err(LengthViolation::Empty)
    } else if s.len() > TEXT_MAX_LEN {
        Err(LengthViolation::TooLong)
    } else {
        Ok(())
    }
}

/// Checks the length constraint on a todo text.
pub fn check_text(s: &String) -> (r: Result<(), LengthViolation>)
    ensures
        r == text_check(s@),
{
    if !length_in_range(s, Some(TEXT_MIN_LEN), None) {
        Err(LengthViolation::Empty)
    } else if !length_in_range(s, None, Some(TEXT_MAX_LEN)) {
        Err(LengthViolation::TooLong)
    } else {
        Ok(())
    }
}

} // verus!
