//! A procedural node-graph document model: a user-editable directed graph of
//! typed computation nodes (including nested sub-graphs), mutated through
//! discrete edit operations that preserve referential integrity, then
//! flattened into a nesting-free proto-graph and evaluated over tagged values.

use vstd::prelude::*;

pub mod bezier;
pub mod catalog;
pub mod clipboard;
pub mod copy;
pub mod delete;
pub mod editor;
pub mod executor;
pub mod flatten;
pub mod frontend;
pub mod graph;
pub mod laws;
pub mod ops;
pub mod process;
pub mod reach;
pub mod snapshot;
pub mod subpath;
pub mod svg;
pub mod value;

use crate::graph::NodeId;

verus! {

/// Deterministic source of fresh node ids, threaded explicitly through every
/// operation that creates nodes so that callers and tests can replay id
/// sequences.
pub struct IdGenerator {
    /// The next id that will be handed out.
    pub next_id: u64,
}

impl IdGenerator {
    /// Start a generator at a chosen first id.
    pub fn new(first: u64) -> (r: IdGenerator)
        ensures
            r.next_id == first,
    {
        IdGenerator { next_id: first }
    }

    /// Hand out the next id and advance. Ids wrap only at the end of the
    /// `u64` range, which the caller rules out.
    pub fn fresh(&mut self) -> (r: NodeId)
        requires
            old(self).next_id < u64::MAX,
        ensures
            r == old(self).next_id,
            final(self).next_id == old(self).next_id + 1,
    {
        let id = self.next_id;
        self.next_id = self.next_id + 1;
        id
    }
}

} // verus!
