//! Parent stability tracking: how often a node switches its routing
//! parent.
//!
//! Each `Parent` event samples the parent address a node currently uses.
//! A sample whose address differs from the previous one counts as a
//! switch. A node's switch rate is `changes / (samples - 1)`; a node with
//! at most one sample has rate zero.

use vstd::prelude::*;
use crate::fixed::{ratio_scaled_spec, ratio_scaled, PPM};
use crate::parse::{bytes_eq, copy_bytes};

verus! {

/// Parent-assignment history of one node.
#[derive(Debug)]
pub struct ParentState {
    /// Parent-assignment observations for this node.
    pub samples: u64,
    /// Observed transitions of the parent address.
    pub changes: u64,
    /// The parent address most recently observed, verbatim.
    pub last_parent: Vec<u8>,
}

/// Mathematical model of one node's parent-assignment history.
pub ghost struct ParentModel {
    pub samples: int,
    pub changes: int,
    pub last_parent: Seq<u8>,
}

impl View for ParentState {
    type V = ParentModel;

    open spec fn view(&self) -> ParentModel {
        ParentModel {
            samples: self.samples as int,
            changes: self.changes as int,
            last_parent: self.last_parent@,
        }
    }
}

impl ParentModel {
    /// A tracked node has been sampled at least once and can have switched
    /// at most once per sample after the first.
    pub open spec fn wf(self) -> bool {
        &&& 1 <= self.samples <= u64::MAX
        &&& 0 <= self.changes <= self.samples - 1
    }
}

/// The history transition for one more parent sample.
pub open spec fn parent_step(m: ParentModel, parent: Seq<u8>) -> ParentModel {
    ParentModel {
        samples: m.samples + 1,
        changes: m.changes + if m.last_parent != parent {
            1int
        } else {
            0int
        },
        last_parent: parent,
    }
}

impl ParentState {
    /// The history after a node's first parent sample.
    pub fn first_sample(parent: &[u8]) -> (st: ParentState)
        ensures
            st@ == (ParentModel { samples: 1, changes: 0, last_parent: parent@ }),
            st@.wf(),
    {
        ParentState { samples: 1, changes: 0, last_parent: copy_bytes(parent) }
    }

    /// Record one more parent sample: count the observation, and count a
    /// switch when the address differs from the last one seen.
    pub fn sample(&mut self, parent: &[u8])
        requires
            old(self)@.wf(),
            old(self)@.samples < u64::MAX,
        ensures
            final(self)@ == parent_step(old(self)@, parent@),
            final(self)@.wf(),
    {
        self.samples = self.samples + 1;
        if !bytes_eq(self.last_parent.as_slice(), parent) {
            self.changes = self.changes + 1;
        }
        self.last_parent = copy_bytes(parent);
    }

    /// This node's switch rate in parts per million: `changes` out of
    /// `samples - 1` sampled transitions. A node with at most one sample
    /// has rate zero.
    pub fn switch_rate_ppm(&self) -> (r: u64)
        requires
            self@.wf(),
        ensures
            r == switch_rate_spec(self@.samples, self@.changes),
            self@.samples <= 1 ==> r == 0,
            r <= PPM,
    {
        if self.samples > 1 {
            ratio_scaled(self.changes, self.samples - 1, PPM)
        } else {
            0
        }
    }
}

/// The switch rate in parts per million for a node with the given sample
/// and change counts: zero for at most one sample, else the share of
/// changes among the `samples - 1` observed transitions.
pub open spec fn switch_rate_spec(samples: int, changes: int) -> int {
    if samples > 1 {
        ratio_scaled_spec(changes, samples - 1, PPM as int)
    } else {
        0
    }
}

} // verus!
