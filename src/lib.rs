//! Allocation of a restaurant's pooled nightly tips across the staff who
//! worked tipped roles.
//!
//! Money is held in cents and hours in hundredths of an hour. Every derived
//! column of the allocation is an exact fraction, so the pool laws (hour
//! shares add up to one, the net tips add up to the night's tips) hold
//! exactly rather than within a tolerance.
//!
//! A night is refused, rather than given undefined values, when a shift has
//! zero hours (its hourly pay has no value), when no hours were worked in a
//! non-steward role (the tips have nobody to go to), or when no steward
//! worked (the tip-out has nobody to go to).
//!
//! - `ingest`: reads the shift table out of a labor export.
//! - `allocate`: the allocation of the tips, row by row, ordered by role.
//! - `laws`: what holds of every allocation (shares add up to one, tips are
//!   conserved, the result is determined by its inputs).
//! - `validate`: roster membership, one shift per employee, and the join
//!   with the roster.
//! - `output`: rounding, and the night's summary.
//! - `generate`: the two artifacts and the whole night's pipeline.
//! - `roster`: reads a staff list; reads the ids of a commission request.
//! - `dates`, `text`, `csv_io`: dates, decimal text, and delimited text.

pub mod allocate;
pub mod csv_io;
pub mod dates;
pub mod generate;
pub mod ingest;
pub mod laws;
pub mod output;
pub mod records;
pub mod roster;
pub mod text;
pub mod validate;
