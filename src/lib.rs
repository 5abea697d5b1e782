//! Identity numbers of the form letter, seven digits, check letter: their
//! checksum scheme, generation from a date of birth and a residency status,
//! and validation; and a small append-only transaction history.
pub mod birth_date;
pub mod checksum;
pub mod nric;
pub mod transaction_history;
