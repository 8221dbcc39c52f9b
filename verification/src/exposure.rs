//! Exposure accounting: which delivered packets transited the attacker.
//!
//! Two independent event streams confirm a packet identity: an `Rx` event
//! confirms delivery at the root, and a `FwdPkt` event from the attacker
//! node confirms transit through it. Each stream is deduplicated into a
//! set of packet keys. The interception count `num` is maintained by a
//! symmetric insert-and-check rule: whichever confirmation arrives second
//! counts the key, so the metric does not depend on event order. `den` is
//! the number of distinct identities ever delivered to the root.

use vstd::prelude::*;

verus! {

broadcast use vstd::set::group_set_axioms;

/// Mathematical model of the exposure accounting state.
#[verifier::ext_equal]
pub ghost struct ExposureModel {
    /// Distinct packet keys confirmed delivered to the root.
    pub delivered: Set<u64>,
    /// Distinct packet keys confirmed to have transited the attacker.
    pub passed: Set<u64>,
    /// Interception count: delivered keys that also transited the attacker.
    pub num: int,
    /// Delivery count: all keys delivered to the root.
    pub den: int,
}

impl ExposureModel {
    /// The counters agree with the sets they summarize: `den` is the size
    /// of the delivered set and `num` the size of its intersection with
    /// the attacker-transit set.
    pub open spec fn wf(self) -> bool {
        &&& self.delivered.finite()
        &&& self.passed.finite()
        &&& self.den == self.delivered.len()
        &&& self.num == self.delivered.intersect(self.passed).len()
        &&& 0 <= self.num <= self.den
    }

    /// The state before any event: nothing delivered, nothing intercepted.
    pub open spec fn initial() -> ExposureModel {
        ExposureModel { delivered: Set::empty(), passed: Set::empty(), num: 0, den: 0 }
    }
}

/// The transition for an `Rx` event confirming delivery of `key`: a new
/// key raises `den`, and also raises `num` when the attacker was already
/// known to have relayed it; a repeated key changes nothing.
pub open spec fn rx_step(m: ExposureModel, key: u64) -> ExposureModel {
    if m.delivered.contains(key) {
        m
    } else {
        ExposureModel {
            delivered: m.delivered.insert(key),
            passed: m.passed,
            num: m.num + if m.passed.contains(key) {
                1int
            } else {
                0int
            },
            den: m.den + 1,
        }
    }
}

/// The transition for a `FwdPkt` event confirming that `key` transited
/// the attacker: a new key raises `num` when the root was already known
/// to have received it; a repeated key changes nothing.
pub open spec fn attacker_step(m: ExposureModel, key: u64) -> ExposureModel {
    if m.passed.contains(key) {
        m
    } else {
        ExposureModel {
            delivered: m.delivered,
            passed: m.passed.insert(key),
            num: m.num + if m.delivered.contains(key) {
                1int
            } else {
                0int
            },
            den: m.den,
        }
    }
}

/// The initial exposure state is well formed.
pub proof fn lemma_initial_wf()
    ensures
        ExposureModel::initial().wf(),
{
    let m = ExposureModel::initial();
    assert(m.delivered.intersect(m.passed) =~= Set::<u64>::empty());
}

/// A delivery confirmation keeps the counters in step with the sets.
pub proof fn lemma_rx_step_wf(m: ExposureModel, key: u64)
    requires
        m.wf(),
    ensures
        rx_step(m, key).wf(),
{
    if !m.delivered.contains(key) {
        let grown = m.delivered.insert(key);
        if m.passed.contains(key) {
            assert(grown.intersect(m.passed) =~= m.delivered.intersect(m.passed).insert(key));
        } else {
            assert(grown.intersect(m.passed) =~= m.delivered.intersect(m.passed));
            vstd::set_lib::lemma_len_subset(grown.intersect(m.passed), grown);
        }
    }
}

/// An attacker-transit confirmation keeps the counters in step with the
/// sets.
pub proof fn lemma_attacker_step_wf(m: ExposureModel, key: u64)
    requires
        m.wf(),
    ensures
        attacker_step(m, key).wf(),
{
    if !m.passed.contains(key) {
        let grown = m.passed.insert(key);
        if m.delivered.contains(key) {
            assert(m.delivered.intersect(grown) =~= m.delivered.intersect(m.passed).insert(key));
            vstd::set_lib::lemma_len_subset(m.delivered.intersect(grown), m.delivered);
        } else {
            assert(m.delivered.intersect(grown) =~= m.delivered.intersect(m.passed));
        }
    }
}

/// Law: the two confirmations of one key commute. Whichever of the root
/// delivery and the attacker transit is observed first, the resulting
/// state is the same; when the key is new to both sets, the interception
/// count rises by exactly one, on the second of the two events, and the
/// delivery count by exactly one.
pub proof fn lemma_exposure_order_independent(m: ExposureModel, key: u64)
    requires
        m.wf(),
    ensures
        ({
            let rx_first = attacker_step(rx_step(m, key), key);
            let att_first = rx_step(attacker_step(m, key), key);
            &&& rx_first.delivered == att_first.delivered
            &&& rx_first.passed == att_first.passed
            &&& rx_first.num == att_first.num
            &&& rx_first.den == att_first.den
            &&& (!m.delivered.contains(key) && !m.passed.contains(key)) ==> {
                &&& rx_first.num == m.num + 1
                &&& rx_first.den == m.den + 1
                &&& rx_step(m, key).num == m.num
                &&& attacker_step(m, key).num == m.num
            }
        }),
{
    let a = rx_step(m, key);
    let b = attacker_step(m, key);
    if !m.delivered.contains(key) && !m.passed.contains(key) {
        assert(attacker_step(a, key).delivered =~= rx_step(b, key).delivered);
        assert(attacker_step(a, key).passed =~= rx_step(b, key).passed);
    } else if m.delivered.contains(key) && !m.passed.contains(key) {
        assert(attacker_step(a, key).delivered =~= rx_step(b, key).delivered);
        assert(attacker_step(a, key).passed =~= rx_step(b, key).passed);
    } else if !m.delivered.contains(key) && m.passed.contains(key) {
        assert(attacker_step(a, key).delivered =~= rx_step(b, key).delivered);
        assert(attacker_step(a, key).passed =~= rx_step(b, key).passed);
    }
}

/// Law: a repeated delivery confirmation of the same key changes nothing;
/// in particular the delivery count never rises twice for one key.
pub proof fn lemma_rx_step_dedup(m: ExposureModel, key: u64)
    ensures
        rx_step(rx_step(m, key), key) == rx_step(m, key),
        rx_step(m, key).den <= m.den + 1,
{
}

/// Law: a repeated attacker-transit confirmation of the same key changes
/// nothing.
pub proof fn lemma_attacker_step_dedup(m: ExposureModel, key: u64)
    ensures
        attacker_step(attacker_step(m, key), key) == attacker_step(m, key),
{
}

} // verus!
