use vstd::prelude::*;

use crate::errors::EmbedError;

verus! {

/// What one publish attempt does to a cell holding `s`: the first write
/// succeeds and fills the slot; every later write fails with
/// `AlreadyInitialized` and leaves the slot as it was.
pub open spec fn publish_outcome<T>(s: Option<T>, v: T) -> (Option<T>, Result<(), EmbedError>) {
    if s is None {
        (Some(v), Ok(()))
    } else {
        (s, Err(EmbedError::AlreadyInitialized))
    }
}

/// A write-once slot for the loaded runtime state.
///
/// Exactly one publish succeeds; reads never wait for a publish, they
/// report `NotInitialized` when the slot is still empty.
pub struct ReadinessCell<T> {
    slot: Option<T>,
}

impl<T> ReadinessCell<T> {
    /// The published value, if any.
    pub closed spec fn published(self) -> Option<T> {
        self.slot
    }

    /// Whether a publish has succeeded.
    pub open spec fn is_ready(self) -> bool {
        self.published() is Some
    }

    /// An empty cell: nothing published yet.
    pub fn new() -> (c: Self)
        ensures
            c.published() is None,
    {
        ReadinessCell { slot: None }
    }

    /// Write-once publish: succeeds exactly once, then fails with
    /// `AlreadyInitialized` without overwriting.
    pub fn publish(&mut self, value: T) -> (r: Result<(), EmbedError>)
        ensures
            (final(self).published(), r) == publish_outcome(old(self).published(), value),
            old(self).published() is None ==> r is Ok && final(self).published() == Some(value),
            old(self).published() is Some ==> r == Err::<(), EmbedError>(
                EmbedError::AlreadyInitialized,
            ) && final(self).published() == old(self).published(),
    {
        if self.slot.is_some() {
            Err(EmbedError::AlreadyInitialized)
        } else {
            self.slot = Some(value);
            Ok(())
        }
    }

    /// Non-blocking read: the published value if present, otherwise
    /// `NotInitialized` immediately.
    pub fn read(&self) -> (r: Result<&T, EmbedError>)
        ensures
            self.is_ready() ==> (r matches Ok(v) && Some(*v) == self.published()),
            !self.is_ready() ==> r == Err::<&T, EmbedError>(EmbedError::NotInitialized),
    {
        match &self.slot {
            Some(v) => Ok(v),
            None => Err(EmbedError::NotInitialized),
        }
    }
}

/// Single-publish law: starting from an unpublished cell, two publish
/// attempts in either naming of the values yield one success, then
/// `AlreadyInitialized`, and the slot holds the first value for good.
pub proof fn lemma_single_publish<T>(s0: Option<T>, v1: T, v2: T)
    requires
        s0 is None,
    ensures
        ({
            let (s1, r1) = publish_outcome(s0, v1);
            let (s2, r2) = publish_outcome(s1, v2);
            &&& r1 is Ok
            &&& s1 == Some(v1)
            &&& r2 == Err::<(), EmbedError>(EmbedError::AlreadyInitialized)
            &&& s2 == s1
        }),
{
}

} // verus!
