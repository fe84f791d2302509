//! A verified ledger program that casts votes for named subjects.
//!
//! The pipeline is: decode the instruction payload, recompute the record
//! address from the subject name, then either create a fresh vote record
//! (first vote) or decode, increment and re-encode the existing one.
//! Runtime plumbing (account handling, cross-program invocation) lives
//! outside this library; everything here is verified.

pub mod errors;
pub mod record;
pub mod instruction;
pub mod address;
pub mod process;

pub use address::ID;
pub use record::VoteAccountData;
