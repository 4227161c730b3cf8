//! Value types shared by all tables.

use vstd::prelude::*;

verus! {

/// A real number stored in a REAL column, held as the bit pattern of its
/// IEEE 754 double. The store only keeps and returns such values; it never
/// computes with them.
#[derive(Clone, Copy, Debug, PartialEq, Eq, Structural)]
pub struct Real {
    pub bits: u64,
}

impl Real {
    /// The value with IEEE 754 bit pattern `bits`.
    pub fn from_bits(bits: u64) -> (r: Real)
        ensures
            r.bits == bits,
    {
        Real { bits }
    }

    /// The IEEE 754 bit pattern of the value.
    pub fn to_bits(&self) -> (r: u64)
        ensures
            r == self.bits,
    {
        self.bits
    }
}

/// The failures that the persistence layer reports.
#[derive(Clone, Debug, PartialEq, Eq)]
pub enum DbError {
    /// No row matches the requested identifier.
    NotFound,
    /// A primary key is taken, or an invariant would be broken.
    Conflict,
    /// A referenced parent row is missing.
    ForeignKey,
    /// Any other storage-engine failure, with the operation's label.
    Engine(String),
    /// A schema migration failed; fatal at startup.
    Migration(String),
    /// A file operation of backup or restore failed.
    Io(String),
}

/// `COALESCE(patch, current)`: the patch value when present.
pub open spec fn coalesce<T>(patch: Option<T>, current: Option<T>) -> Option<T> {
    match patch {
        Some(v) => Some(v),
        None => current,
    }
}

/// `COALESCE(patch, current)`.
pub fn coalesce_exec<T>(patch: Option<T>, current: Option<T>) -> (r: Option<T>)
    ensures
        r == coalesce(patch, current),
{
    match patch {
        Some(v) => Some(v),
        None => current,
    }
}

} // verus!
