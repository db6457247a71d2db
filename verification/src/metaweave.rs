//! The primitive registry: named primitives and the partition depth that
//! governs how aggressively new ones are proposed.
//!
//! Proposing new primitives is driven by a host-side random-string
//! generator; the registry itself only records names and the configured
//! depth, which is what the engine's command front end adjusts.

use vstd::prelude::*;

verus! {

/// A registry of named primitives with a partition depth.
pub struct Metaweave {
    /// Primitive names, in the order they were registered.
    pub primitives: Vec<String>,
    /// Partition depth used when proposing new primitives.
    pub partition_kmax: i32,
}

impl Metaweave {
    /// A fresh registry: the two built-in primitives and the default depth.
    pub fn new() -> (m: Metaweave)
        ensures
            m.primitives@.len() == 2,
            m.primitives@[0]@ == "sense_light"@,
            m.primitives@[1]@ == "act_move"@,
            m.partition_kmax == 5,
    {
        let mut primitives: Vec<String> = Vec::new();
        primitives.push("sense_light".to_owned());
        primitives.push("act_move".to_owned());
        Metaweave { primitives, partition_kmax: 5 }
    }

    /// Registers one more primitive under the given name.
    pub fn add_primitive(&mut self, name: String)
        ensures
            final (self).primitives@.len() == old(self).primitives@.len() + 1,
            forall|i: int|
                0 <= i < old(self).primitives@.len() ==> final (self).primitives@[i] == old(
                    self,
                ).primitives@[i],
            final (self).primitives@.last() == name,
            final (self).partition_kmax == old(self).partition_kmax,
    {
        self.primitives.push(name);
    }

    /// Records a new partition depth.
    pub fn update_partitions(&mut self, kmax: i32)
        ensures
            final (self).partition_kmax == kmax,
            final (self).primitives == old(self).primitives,
    {
        self.partition_kmax = kmax;
    }
}

} // verus!
