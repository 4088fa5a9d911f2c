//! The in-flight sequence marker: which sequence number, if any, is currently
//! being applied across a namespace's tables.

use vstd::prelude::*;

use crate::ids::SequenceNumber;

verus! {

/// `None` while the namespace is idle; `Some(seq)` for the duration of
/// exactly one apply call. Progress observers read it to report a write as
/// partially durable instead of inferring completeness from per-table
/// watermarks.
#[derive(Debug)]
pub struct SequenceMarker {
    value: Option<SequenceNumber>,
}

impl SequenceMarker {
    pub closed spec fn value_spec(self) -> Option<SequenceNumber> {
        self.value
    }

    pub fn new() -> (r: Self)
        ensures
            r.value_spec() is None,
    {
        SequenceMarker { value: None }
    }

    pub fn current(&self) -> (r: Option<SequenceNumber>)
        ensures
            r == self.value_spec(),
    {
        self.value
    }

    /// Mark `sequence_number` as actively being applied.
    pub fn begin(&mut self, sequence_number: SequenceNumber)
        ensures
            final(self).value_spec() == Some(sequence_number),
    {
        self.value = Some(sequence_number);
    }

    /// Clear the marker at the end of the apply call that set it.
    ///
    /// The caller must still hold the very value it set: anything else would
    /// mean two apply calls overlapped for one namespace, a caller contract
    /// violation that must never be reached, which is why it is a
    /// precondition and not a handled case.
    pub fn end(&mut self, sequence_number: SequenceNumber)
        requires
            old(self).value_spec() == Some(sequence_number),
        ensures
            final(self).value_spec() is None,
    {
        self.value = None;
    }
}

} // verus!
