//! The correlation table: pending probes keyed by their sequence number.
use std::collections::HashMap;
use vstd::prelude::*;

verus! {

broadcast use vstd::std_specs::hash::group_hash_axioms;

/// Completing a sequence number that has no pending entry.
#[derive(Debug, Clone, Copy, PartialEq, Eq, Structural)]
pub enum CorrelationError {
    Missing { seq: u64 },
}

/// Map from the sequence number of an outstanding probe to its waiter.
///
/// Each sequence number has at most one entry; completing an entry removes it.
pub struct CorrelationTable<W> {
    entries: HashMap<u64, W>,
}

impl<W> View for CorrelationTable<W> {
    type V = Map<u64, W>;

    closed spec fn view(&self) -> Map<u64, W> {
        self.entries@
    }
}

/// What `complete(seq)` returns on a table holding `m`.
pub open spec fn completion<W>(m: Map<u64, W>, seq: u64) -> Result<W, CorrelationError> {
    if m.contains_key(seq) {
        Ok(m[seq])
    } else {
        Err(CorrelationError::Missing { seq })
    }
}

impl<W> CorrelationTable<W> {
    pub fn new() -> (r: Self)
        ensures
            r@ == Map::<u64, W>::empty(),
    {
        CorrelationTable { entries: HashMap::new() }
    }

    /// Number of pending entries.
    pub fn len(&self) -> (r: usize)
        ensures
            r == self@.len(),
    {
        self.entries.len()
    }

    pub fn is_empty(&self) -> (r: bool)
        ensures
            r == (self@.len() == 0),
    {
        self.entries.is_empty()
    }

    pub fn contains(&self, seq: u64) -> (r: bool)
        ensures
            r == self@.contains_key(seq),
    {
        self.entries.contains_key(&seq)
    }

    /// Registers the waiter of a probe that is about to be sent.
    pub fn insert(&mut self, seq: u64, waiter: W)
        requires
            !old(self)@.contains_key(seq),
        ensures
            final(self)@ == old(self)@.insert(seq, waiter),
            final(self)@.len() == old(self)@.len() + 1,
    {
        self.entries.insert(seq, waiter);
    }

    /// Removes the entry of `seq` and hands back its waiter.
    pub fn complete(&mut self, seq: u64) -> (r: Result<W, CorrelationError>)
        ensures
            r == completion(old(self)@, seq),
            final(self)@ == old(self)@.remove(seq),
            final(self)@.len() == if old(self)@.contains_key(seq) {
                old(self)@.len() - 1
            } else {
                old(self)@.len() as int
            },
    {
        match self.entries.remove(&seq) {
            Some(w) => Ok(w),
            None => Err(CorrelationError::Missing { seq }),
        }
    }
}

/// Completing a sequence number right after it was inserted returns exactly the
/// inserted waiter, and the same number can then not be completed a second time.
pub proof fn lemma_complete_after_insert<W>(m: Map<u64, W>, seq: u64, w: W)
    requires
        !m.contains_key(seq),
    ensures
        completion(m.insert(seq, w), seq) == Ok::<W, CorrelationError>(w),
        completion(m.insert(seq, w).remove(seq), seq) == Err::<W, CorrelationError>(
            CorrelationError::Missing { seq },
        ),
        m.insert(seq, w).remove(seq) =~= m,
{
}

/// Once `seq` has been completed, completing it again fails.
pub proof fn lemma_never_completed_twice<W>(m: Map<u64, W>, seq: u64)
    ensures
        completion(m.remove(seq), seq) == Err::<W, CorrelationError>(CorrelationError::Missing { seq }),
{
}

} // verus!
