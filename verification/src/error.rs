use vstd::prelude::*;

verus! {

/// Every failure this library reports. Malformed input is reported through
/// these variants; no input makes the library panic or abort the process.
#[derive(Clone, Copy, Debug, PartialEq, Eq, Structural)]
pub enum Error {
    /// The serial type is not part of the SQLite record format
    /// (10, 11, or anything negative or otherwise outside the table).
    /// Carries the offending serial type.
    InvalidSerialType(i64),
    /// The buffer is shorter than the width the serial type requires.
    TruncatedRecord,
    /// A hash join was configured with an empty list of join column pairs.
    ConfigurationError,
    /// The declared types of a join column pair are structurally incompatible.
    TypeMismatch,
    /// An expression refers to a column the record does not have.
    ColumnOutOfRange,
    /// The operator is a placeholder and has no execution logic yet.
    Unimplemented,
}

} // verus!
