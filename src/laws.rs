//! Properties that relate several operations of the wiring registry.
use vstd::prelude::*;
use crate::graph::{EdgeSpec, EndV};
use crate::network::{register, Network};

verus! {

/// In a well-formed network a packet sent at a producer endpoint reaches at
/// most one consumer endpoint: it is never duplicated.
pub proof fn lemma_single_delivery(net: Network, from: EndV, t1: EndV, t2: EndV)
    requires
        net.wf(),
        net.routes_to(from, t1),
        net.routes_to(from, t2),
    ensures
        t1 == t2,
{
    let i = choose|i: int| 0 <= i < net.links@.len() && #[trigger] net.links@[i].from@ == from && net.links@[i].to@ == t1;
    let j = choose|j: int| 0 <= j < net.links@.len() && #[trigger] net.links@[j].from@ == from && net.links@[j].to@ == t2;
    if i != j {
        assert(net.links@[i].from@ != net.links@[j].from@);
    }
}

/// Two edges into the same input-array slot register it once: the second
/// registration changes nothing, and the slot is listed exactly once.
pub proof fn lemma_fan_in_idempotent(slots: Seq<EndV>, e1: EdgeSpec, e2: EdgeSpec)
    requires
        slots.no_duplicates(),
        e1.dst() == e2.dst(),
    ensures
        register(register(slots, e1.dst()), e2.dst()) == register(slots, e1.dst()),
        register(slots, e1.dst()).no_duplicates(),
        register(slots, e1.dst()).contains(e2.dst()),
{
    let once = register(slots, e1.dst());
    if !slots.contains(e1.dst()) {
        assert(once[slots.len() as int] == e1.dst());
        assert forall|a: int, b: int| 0 <= a < once.len() && 0 <= b < once.len() && a != b
            implies once[a] != once[b] by {
            if a == slots.len() {
                assert(slots.contains(once[b]));
            } else if b == slots.len() {
                assert(slots.contains(once[a]));
            }
        }
    }
    assert(once.contains(e1.dst()));
}

} // verus!
