//! Luhn (modulus 10) check digits: computing them, appending them, and
//! validating sequences that end in one.

pub mod cli;
pub mod laws;
pub mod luhn;

pub use cli::{displayed_checksum, Arguments};
pub use luhn::{
    compute_check_digit, compute_checksum, compute_valid_sequence, validate_sequence,
    weighted_sum, LuhnError, MAX_DIGITS,
};
