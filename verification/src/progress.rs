//! Aggregate progress of a namespace's write stream.

use vstd::prelude::*;

use crate::ids::SequenceNumber;

verus! {

/// The greater of two optional sequence numbers; absence loses to presence.
pub open spec fn max_sequence(
    a: Option<SequenceNumber>,
    b: Option<SequenceNumber>,
) -> Option<SequenceNumber> {
    match (a, b) {
        (Some(x), Some(y)) => if x.value >= y.value {
            Some(x)
        } else {
            Some(y)
        },
        (Some(x), None) => Some(x),
        (None, Some(y)) => Some(y),
        (None, None) => None,
    }
}

/// The smaller of two optional sequence numbers; absence loses to presence.
/// Used for the actively-buffering marker: the earliest incomplete write is
/// the conservative answer to "what is not yet fully readable?".
pub open spec fn min_sequence(
    a: Option<SequenceNumber>,
    b: Option<SequenceNumber>,
) -> Option<SequenceNumber> {
    match (a, b) {
        (Some(x), Some(y)) => if x.value <= y.value {
            Some(x)
        } else {
            Some(y)
        },
        (Some(x), None) => Some(x),
        (None, Some(y)) => Some(y),
        (None, None) => None,
    }
}

/// How much of a write stream is durable and queryable: the highest buffered
/// and persisted sequence numbers seen, and the sequence number actively being
/// applied, if any. Derived on demand, never stored.
#[derive(Clone, Copy, Debug, PartialEq, Eq, Structural)]
pub struct ShardProgress {
    /// Highest sequence number buffered in memory, if any.
    pub max_buffered: Option<SequenceNumber>,
    /// Highest sequence number made durable, if any.
    pub max_persisted: Option<SequenceNumber>,
    /// A sequence number that is only partially applied, if any.
    pub actively_buffering: Option<SequenceNumber>,
}

impl ShardProgress {
    pub open spec fn empty_spec() -> ShardProgress {
        ShardProgress { max_buffered: None, max_persisted: None, actively_buffering: None }
    }

    /// Progress that has seen nothing.
    pub fn new() -> (r: Self)
        ensures
            r == Self::empty_spec(),
    {
        ShardProgress { max_buffered: None, max_persisted: None, actively_buffering: None }
    }

    pub open spec fn with_actively_buffering_spec(
        self,
        sequence_number: Option<SequenceNumber>,
    ) -> ShardProgress {
        ShardProgress { actively_buffering: sequence_number, ..self }
    }

    /// Record that `sequence_number`, if present, is actively being applied
    /// and therefore only partially readable.
    pub fn actively_buffering(self, sequence_number: Option<SequenceNumber>) -> (r: Self)
        ensures
            r == self.with_actively_buffering_spec(sequence_number),
    {
        ShardProgress { actively_buffering: sequence_number, ..self }
    }

    pub open spec fn combine_spec(self, other: ShardProgress) -> ShardProgress {
        ShardProgress {
            max_buffered: max_sequence(self.max_buffered, other.max_buffered),
            max_persisted: max_sequence(self.max_persisted, other.max_persisted),
            actively_buffering: min_sequence(self.actively_buffering, other.actively_buffering),
        }
    }

    /// Merge two progress values; side-effect-free.
    pub fn combine(self, other: Self) -> (r: Self)
        ensures
            r == self.combine_spec(other),
    {
        ShardProgress {
            max_buffered: max_sequence_exec(self.max_buffered, other.max_buffered),
            max_persisted: max_sequence_exec(self.max_persisted, other.max_persisted),
            actively_buffering: min_sequence_exec(
                self.actively_buffering,
                other.actively_buffering,
            ),
        }
    }
}

fn max_sequence_exec(a: Option<SequenceNumber>, b: Option<SequenceNumber>) -> (r: Option<
    SequenceNumber,
>)
    ensures
        r == max_sequence(a, b),
{
    match (a, b) {
        (Some(x), Some(y)) => if x.value >= y.value {
            Some(x)
        } else {
            Some(y)
        },
        (Some(x), None) => Some(x),
        (None, Some(y)) => Some(y),
        (None, None) => None,
    }
}

fn min_sequence_exec(a: Option<SequenceNumber>, b: Option<SequenceNumber>) -> (r: Option<
    SequenceNumber,
>)
    ensures
        r == min_sequence(a, b),
{
    match (a, b) {
        (Some(x), Some(y)) => if x.value <= y.value {
            Some(x)
        } else {
            Some(y)
        },
        (Some(x), None) => Some(x),
        (None, Some(y)) => Some(y),
        (None, None) => None,
    }
}

/// Law: the merge of progress values is associative, so folding a set of
/// per-table progress values gives one answer in whatever order they come.
pub proof fn lemma_combine_associative(a: ShardProgress, b: ShardProgress, c: ShardProgress)
    ensures
        a.combine_spec(b).combine_spec(c) == a.combine_spec(b.combine_spec(c)),
{
}

/// Law: the merge of progress values is commutative.
pub proof fn lemma_combine_commutative(a: ShardProgress, b: ShardProgress)
    ensures
        a.combine_spec(b) == b.combine_spec(a),
{
}

} // verus!
