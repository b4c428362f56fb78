//! The two error taxonomies of the recorder.
//!
//! A `SetError` is reported to the producer by the write-side operations.  Two
//! of its variants are expected races that the host logs and drops; the rest
//! are contract violations on which the host aborts.  A `DumpError` is
//! surfaced to the drain controller, whose read loop retries on overflow and
//! reports the others upward.

use vstd::prelude::*;

verus! {

/// Opaque identity of a scheduling group, compared only for equality against
/// the topology snapshot taken at construction.
pub type GroupId = usize;

/// Errors reported to the producer by field-set and close operations.
#[derive(Clone, Copy, Debug, PartialEq, Eq)]
pub enum SetError {
    /// The record's current-domain cursor ran past the last domain.
    SdOutOfBounds(usize),
    /// A per-CPU setter named a CPU index outside the topology.
    CpuOutOfBounds(usize),
    /// The handle's epoch no longer matches the buffer's epoch: the write
    /// arrived after a reset and is dropped.
    OldMealDescriptor,
    /// The buffer is locked for draining: the write is dropped.
    LockedForReading,
    /// A group-scoped setter named an identity that the topology snapshot
    /// does not contain.
    SchedGroupDoesNotExist(GroupId),
}

/// Errors surfaced to the drain controller.
#[derive(Clone, Copy, Debug, PartialEq, Eq)]
pub enum DumpError {
    /// A cursor or a per-CPU lookup named a CPU outside the topology.
    CpuOutOfBounds(usize),
    /// The sink ran out of room; the payload is the number of characters it
    /// held when the write was refused.
    BufferOutOfBounds(usize),
    /// The cursor's entry index is past the last ring-buffer slot.
    EntryOutOfBounds(usize),
    /// The buffer was read without being locked first.
    NotReadOnly,
    /// The recorder has no buffers yet.
    RingBufferUninitialized,
    /// The cursor's domain index is out of range for the record.
    SdOutOfBounds(usize),
    /// The cursor's group index is out of range for the domain.
    SgOutOfBounds(usize),
}

/// The errno value for an out-of-memory condition, negated as the host's C
/// convention wants it.
pub const MINUS_ENOMEM: i32 = -12;

/// The errno value for an invalid argument, negated as the host's C
/// convention wants it.
pub const MINUS_EINVAL: i32 = -22;

impl SetError {
    /// True exactly for the variants that mark a contract violation, on which
    /// the host must abort rather than drop the write.
    pub fn is_fatal(&self) -> (r: bool)
        ensures
            r == self.spec_is_fatal(),
    {
        match self {
            SetError::SdOutOfBounds(_) => true,
            SetError::CpuOutOfBounds(_) => true,
            SetError::OldMealDescriptor => false,
            SetError::LockedForReading => false,
            SetError::SchedGroupDoesNotExist(_) => true,
        }
    }

    /// Which variants are contract violations.
    pub open spec fn spec_is_fatal(&self) -> bool {
        match self {
            SetError::SdOutOfBounds(_) => true,
            SetError::CpuOutOfBounds(_) => true,
            SetError::OldMealDescriptor => false,
            SetError::LockedForReading => false,
            SetError::SchedGroupDoesNotExist(_) => true,
        }
    }
}

impl DumpError {
    /// True exactly for the variant that marks a contract violation: reading
    /// a buffer that was never locked.
    pub fn is_fatal(&self) -> (r: bool)
        ensures
            r == (self is NotReadOnly),
    {
        match self {
            DumpError::NotReadOnly => true,
            _ => false,
        }
    }

    /// The negated errno under which the host's read loop reports this error:
    /// out-of-memory for a full sink, invalid-argument for everything else.
    pub fn to_errno(&self) -> (r: i32)
        ensures
            self is BufferOutOfBounds ==> r == MINUS_ENOMEM,
            !(self is BufferOutOfBounds) ==> r == MINUS_EINVAL,
    {
        match self {
            DumpError::BufferOutOfBounds(_) => MINUS_ENOMEM,
            _ => MINUS_EINVAL,
        }
    }
}

} // verus!
