use vstd::prelude::*;

verus! {

/// What becomes of one event addressed to a handle.
#[derive(PartialEq, Eq, Structural, Clone, Copy, Debug)]
pub enum Delivery {
    /// The host was torn down: nothing is delivered.
    HostGone,
    /// The script dropped the handle's callback: nothing is delivered.
    ResourceGone,
    /// The callback is invoked with the event.
    Invoke,
}

pub open spec fn delivery_spec(host_alive: bool, resource_present: bool) -> Delivery {
    if !host_alive {
        Delivery::HostGone
    } else if !resource_present {
        Delivery::ResourceGone
    } else {
        Delivery::Invoke
    }
}

/// Decides one delivery from whether the host could be reached and whether
/// the handle's callback is still registered.
pub fn plan_delivery(host_alive: bool, resource_present: bool) -> (r: Delivery)
    ensures
        r == delivery_spec(host_alive, resource_present),
{
    if !host_alive {
        Delivery::HostGone
    } else if !resource_present {
        Delivery::ResourceGone
    } else {
        Delivery::Invoke
    }
}

/// How many callback invocations a series of delivery attempts makes; each
/// attempt is (host reachable, callback registered).
pub open spec fn invocations(attempts: Seq<(bool, bool)>) -> nat
    decreases attempts.len(),
{
    if attempts.len() == 0 {
        0
    } else {
        (if delivery_spec(attempts[0].0, attempts[0].1) == Delivery::Invoke {
            1nat
        } else {
            0nat
        }) + invocations(attempts.drop_first())
    }
}

/// Events addressed to a handle whose callback is gone reach no callback:
/// the invocation count stays at zero.
pub proof fn lemma_removed_resource_silent(attempts: Seq<(bool, bool)>)
    requires
        forall|i: int| 0 <= i < attempts.len() ==> !(#[trigger] attempts[i]).1,
    ensures
        invocations(attempts) == 0,
    decreases attempts.len(),
{
    if attempts.len() > 0 {
        assert(!attempts[0].1);
        let rest = attempts.drop_first();
        assert forall|i: int| 0 <= i < rest.len() implies !(#[trigger] rest[i]).1 by {
            assert(rest[i] == attempts[i + 1]);
        }
        lemma_removed_resource_silent(rest);
    }
}

} // verus!
