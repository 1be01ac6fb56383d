use vstd::prelude::*;
use crate::luhn::{
    compute_checksum, is_luhn_valid, luhn_sum, sequence_error, validate_sequence, LuhnError,
    MAX_DIGITS,
};

verus! {

/// What the command line asks for: a sequence, and which reports to print.
#[derive(Debug, Clone)]
pub struct Arguments {
    /// The digit sequence to work on.
    pub sequence: String,
    /// Report whether the sequence is a valid Luhn number.
    pub validate: bool,
    /// Report the checksum of the sequence.
    pub checksum: bool,
    /// Report the sequence with its check digit appended.
    pub generate: bool,
    /// Report the check digit of the sequence.
    pub digit: bool,
}

impl Arguments {
    /// Validation is reported when it is asked for, and when no report is
    /// asked for at all.
    pub fn reports_validation(&self) -> (r: bool)
        ensures
            r == (self.validate || !(self.checksum || self.generate || self.digit)),
    {
        (!self.validate && !self.checksum && !self.generate && !self.digit) || self.validate
    }
}

/// The checksum that the command line shows: the sum of a sequence that
/// already validates is taken with its rightmost digit as the check digit;
/// that of any other, with its rightmost digit doubled.
pub fn displayed_checksum(sequence: &String) -> (r: Result<u32, LuhnError>)
    requires
        sequence@.len() <= MAX_DIGITS,
    ensures
        r == (match sequence_error(sequence@) {
            Some(e) => Err(e),
            None => Ok(luhn_sum(sequence@, !is_luhn_valid(sequence@)) as u32),
        }),
{
    match validate_sequence(sequence) {
        Err(e) => Err(e),
        Ok(valid) => compute_checksum(sequence, !valid),
    }
}

} // verus!
