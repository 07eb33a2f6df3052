//! Sequence tracking for top-of-book streams.
use crate::types::Sequence;
use vstd::prelude::*;

verus! {

/// The last sequence number seen on a stream.
#[derive(Debug, Default)]
pub struct SequenceTracker {
    last_sequence: Option<Sequence>,
}

/// How a sequence number relates to the last one seen.
#[derive(Debug, PartialEq, Eq, Structural)]
pub enum SequenceStatus {
    First,
    Newer,
    DuplicateOrOld,
}

/// How a depth update related to a book's sequence.
#[derive(Debug, Clone, Copy, PartialEq, Eq, Structural)]
pub enum DepthSequenceStatus {
    Applied,
    IgnoredOldUpdate,
    Gap,
}

impl View for SequenceTracker {
    type V = Option<Sequence>;

    closed spec fn view(&self) -> Option<Sequence> {
        self.last_sequence
    }
}

/// The status of a received sequence number against the last one seen,
/// and the last one seen afterwards: the first number is taken, a larger
/// one replaces it, a duplicate or smaller one is ignored.
pub open spec fn ticker_step(last: Option<Sequence>, received: Sequence) -> (SequenceStatus, Option<Sequence>) {
    match last {
        None => (SequenceStatus::First, Some(received)),
        Some(l) => if received <= l {
            (SequenceStatus::DuplicateOrOld, last)
        } else {
            (SequenceStatus::Newer, Some(received))
        },
    }
}

impl SequenceTracker {
    /// A tracker that has seen nothing.
    pub fn new() -> (r: Self)
        ensures
            r@ is None,
    {
        SequenceTracker { last_sequence: None }
    }

    /// Checks a received sequence number (see [`ticker_step`]).
    pub fn check_book_ticker(&mut self, received: Sequence) -> (r: SequenceStatus)
        ensures
            (r, final(self)@) == ticker_step(old(self)@, received),
    {
        match self.last_sequence {
            None => {
                self.last_sequence = Some(received);
                SequenceStatus::First
            },
            Some(last) => {
                if received <= last {
                    SequenceStatus::DuplicateOrOld
                } else {
                    self.last_sequence = Some(received);
                    SequenceStatus::Newer
                }
            },
        }
    }
}

/// Law: the last sequence seen never decreases, and once a number has been
/// seen, offering it again is a duplicate that changes nothing.
pub proof fn law_sequence_monotone(last: Option<Sequence>, received: Sequence)
    ensures
        last matches Some(l) ==> ticker_step(last, received).1 matches Some(n) && n >= l,
        ticker_step(ticker_step(last, received).1, received) == (
            SequenceStatus::DuplicateOrOld,
            ticker_step(last, received).1,
        ),
{
}

} // verus!
