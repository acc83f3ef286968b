use vstd::prelude::*;

verus! {

/// Identifies one render target (a terminal pane or the tab bar).
#[derive(Debug, Clone, Copy, PartialEq, Eq, Structural, PartialOrd, Ord, Hash)]
pub struct RenderTargetId(pub u64);

impl RenderTargetId {
    pub fn new(value: u64) -> (id: Self)
        ensures
            id.0 == value,
    {
        RenderTargetId(value)
    }

    pub fn value(self) -> (value: u64)
        ensures
            value == self.0,
    {
        self.0
    }
}

/// A sequence number of terminal snapshots and frames.
#[derive(Debug, Clone, Copy, PartialEq, Eq, Structural, PartialOrd, Ord, Hash)]
pub struct SeqNo(pub u64);

impl SeqNo {
    pub fn new(value: u64) -> (seq: Self)
        ensures
            seq.0 == value,
    {
        SeqNo(value)
    }

    pub fn value(self) -> (value: u64)
        ensures
            value == self.0,
    {
        self.0
    }
}

} // verus!
