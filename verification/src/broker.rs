//! Session broker: the live-connection counter and its shutdown signal.
//!
//! The broker lets several display-client invocations share one running VM.
//! Each accepted connection first receives the VM's display port (two bytes,
//! little-endian), then the counter follows attach and detach events; the
//! shutdown signal fires exactly once, at the transition from one live
//! connection to zero, and no connection is accepted after it has fired.

use vstd::prelude::*;
use vstd::bytes::{spec_u16_from_le_bytes, spec_u16_to_le_bytes, u16_from_le_bytes, u16_to_le_bytes};
use vstd::bytes::lemma_auto_spec_u16_to_from_le_bytes;

verus! {

/// One client-side event seen by the broker.
#[derive(Debug, Clone, Copy, PartialEq, Eq, Structural)]
pub enum BrokerEvent {
    /// A display client attached.
    Attach,
    /// An attached display client left (clean close, reset, or any read
    /// error: all are treated as the client having left).
    Detach,
}

/// The mathematical broker state.
pub ghost struct BrokerModel {
    /// Number of live connections.
    pub live: int,
    /// Whether the shutdown signal has been emitted.
    pub signal_fired: bool,
}

/// The state a broker starts a session in.
pub open spec fn spec_broker_init() -> BrokerModel {
    BrokerModel { live: 0, signal_fired: false }
}

/// States a broker can actually reach: the signal fires only when the last
/// client leaves, so a fired signal means nobody is attached.
pub open spec fn spec_broker_inv(s: BrokerModel) -> bool {
    &&& s.live >= 0
    &&& (s.signal_fired ==> s.live == 0)
}

/// One broker transition: the new state and whether the shutdown signal fires
/// at this step. An attach after the signal is rejected; a detach below zero
/// cannot happen and is a no-op in the model.
pub open spec fn spec_broker_step(s: BrokerModel, e: BrokerEvent) -> (BrokerModel, bool) {
    match e {
        BrokerEvent::Attach => if s.signal_fired {
            (s, false)
        } else {
            (BrokerModel { live: s.live + 1, signal_fired: s.signal_fired }, false)
        },
        BrokerEvent::Detach => if s.live == 0 {
            (s, false)
        } else {
            let fire = s.live == 1 && !s.signal_fired;
            (BrokerModel { live: s.live - 1, signal_fired: s.signal_fired || fire }, fire)
        },
    }
}

/// The state after a whole event trace.
pub open spec fn spec_broker_run(s: BrokerModel, evs: Seq<BrokerEvent>) -> BrokerModel
    decreases evs.len(),
{
    if evs.len() == 0 {
        s
    } else {
        spec_broker_run(spec_broker_step(s, evs[0]).0, evs.drop_first())
    }
}

/// How many times the shutdown signal fires along a trace.
pub open spec fn spec_fire_count(s: BrokerModel, evs: Seq<BrokerEvent>) -> nat
    decreases evs.len(),
{
    if evs.len() == 0 {
        0
    } else {
        (if spec_broker_step(s, evs[0]).1 {
            1nat
        } else {
            0nat
        }) + spec_fire_count(spec_broker_step(s, evs[0]).0, evs.drop_first())
    }
}

/// Every step preserves the reachable-state invariant.
pub proof fn lemma_broker_step_inv(s: BrokerModel, e: BrokerEvent)
    requires
        spec_broker_inv(s),
    ensures
        spec_broker_inv(spec_broker_step(s, e).0),
{
}

/// The signal fires only at a detach that takes the counter from one to zero.
pub proof fn lemma_fire_only_at_last_detach(s: BrokerModel, e: BrokerEvent)
    ensures
        spec_broker_step(s, e).1 ==> e == BrokerEvent::Detach && s.live == 1 && !s.signal_fired
            && spec_broker_step(s, e).0.live == 0,
{
}

/// Once the signal has fired, no trace fires it again: attaches are rejected
/// and nobody is left to detach.
pub proof fn lemma_no_fire_after_fired(s: BrokerModel, evs: Seq<BrokerEvent>)
    requires
        spec_broker_inv(s),
        s.signal_fired,
    ensures
        spec_fire_count(s, evs) == 0,
        spec_broker_run(s, evs) == s,
    decreases evs.len(),
{
    if evs.len() > 0 {
        assert(spec_broker_step(s, evs[0]).0 == s);
        lemma_no_fire_after_fired(s, evs.drop_first());
    }
}

/// The shutdown signal fires at most once along any event trace from any
/// reachable state; in particular from the start of a session.
pub proof fn lemma_signal_at_most_once_from(s: BrokerModel, evs: Seq<BrokerEvent>)
    requires
        spec_broker_inv(s),
    ensures
        spec_fire_count(s, evs) <= 1,
    decreases evs.len(),
{
    if evs.len() > 0 {
        let (s1, fired) = spec_broker_step(s, evs[0]);
        lemma_broker_step_inv(s, evs[0]);
        if fired {
            lemma_no_fire_after_fired(s1, evs.drop_first());
        } else {
            lemma_signal_at_most_once_from(s1, evs.drop_first());
        }
    }
}

/// For any interleaving of attach and detach events, the shutdown signal
/// fires at most once per session.
pub proof fn lemma_signal_at_most_once(evs: Seq<BrokerEvent>)
    ensures
        spec_fire_count(spec_broker_init(), evs) <= 1,
{
    lemma_signal_at_most_once_from(spec_broker_init(), evs);
}

/// Count of attach events in a trace.
pub open spec fn spec_attach_count(evs: Seq<BrokerEvent>) -> int
    decreases evs.len(),
{
    if evs.len() == 0 {
        0
    } else {
        (if evs[0] == BrokerEvent::Attach {
            1int
        } else {
            0int
        }) + spec_attach_count(evs.drop_first())
    }
}

/// Count of detach events in a trace.
pub open spec fn spec_detach_count(evs: Seq<BrokerEvent>) -> int
    decreases evs.len(),
{
    if evs.len() == 0 {
        0
    } else {
        (if evs[0] == BrokerEvent::Detach {
            1int
        } else {
            0int
        }) + spec_detach_count(evs.drop_first())
    }
}

/// Attaches minus detaches.
pub open spec fn spec_balance(evs: Seq<BrokerEvent>) -> int {
    spec_attach_count(evs) - spec_detach_count(evs)
}

proof fn lemma_counts_take_step(evs: Seq<BrokerEvent>, k: int)
    requires
        1 <= k <= evs.len(),
    ensures
        spec_attach_count(evs.take(k)) == (if evs[0] == BrokerEvent::Attach {
            1int
        } else {
            0int
        }) + spec_attach_count(evs.drop_first().take(k - 1)),
        spec_detach_count(evs.take(k)) == (if evs[0] == BrokerEvent::Detach {
            1int
        } else {
            0int
        }) + spec_detach_count(evs.drop_first().take(k - 1)),
{
    assert(evs.take(k)[0] == evs[0]);
    assert(evs.take(k).drop_first() =~= evs.drop_first().take(k - 1));
}

/// From a state with an unfired signal, a trace whose running balance keeps
/// the counter at one or more until the very end, and brings it to exactly
/// zero there, ends with the counter at zero and the signal fired exactly
/// once.
proof fn lemma_run_to_zero(s: BrokerModel, evs: Seq<BrokerEvent>)
    requires
        s.live >= 0,
        !s.signal_fired,
        evs.len() > 0,
        s.live + spec_balance(evs) == 0,
        forall|k: int| 0 < k < evs.len() ==> s.live + spec_balance(#[trigger] evs.take(k)) >= 1,
    ensures
        spec_broker_run(s, evs) == (BrokerModel { live: 0, signal_fired: true }),
        spec_fire_count(s, evs) == 1,
    decreases evs.len(),
{
    let e = evs[0];
    let (s1, fired) = spec_broker_step(s, e);
    let rest = evs.drop_first();
    assert(spec_attach_count(evs) == (if e == BrokerEvent::Attach {
        1int
    } else {
        0int
    }) + spec_attach_count(rest));
    assert(spec_detach_count(evs) == (if e == BrokerEvent::Detach {
        1int
    } else {
        0int
    }) + spec_detach_count(rest));
    if evs.len() == 1 {
        assert(rest =~= Seq::<BrokerEvent>::empty());
        assert(spec_attach_count(rest) == 0);
        assert(spec_detach_count(rest) == 0);
        // a single event bringing the counter to zero is a detach from one
        assert(e == BrokerEvent::Detach && s.live == 1);
        assert(s1 == BrokerModel { live: 0, signal_fired: true });
        assert(fired);
        assert(spec_fire_count(s1, rest) == 0);
        assert(spec_broker_run(s, evs) == spec_broker_run(s1, rest));
    } else {
        // the first step cannot fire: the balance after it is still >= 1
        assert(evs.take(1).len() == 1);
        assert(evs.take(1)[0] == e);
        assert(evs.take(1).drop_first() =~= Seq::<BrokerEvent>::empty());
        assert(spec_attach_count(evs.take(1).drop_first()) == 0);
        assert(spec_detach_count(evs.take(1).drop_first()) == 0);
        assert(spec_balance(evs.take(1)) == (if e == BrokerEvent::Attach {
            1int
        } else {
            -1int
        }));
        assert(s.live + spec_balance(evs.take(1)) >= 1);
        assert(s1.live == s.live + spec_balance(evs.take(1)));
        assert(!fired && !s1.signal_fired && s1.live >= 1);
        assert(s1.live + spec_balance(rest) == 0);
        assert forall|k: int| 0 < k < rest.len() implies s1.live + spec_balance(
            #[trigger] rest.take(k),
        ) >= 1 by {
            lemma_counts_take_step(evs, k + 1);
            assert(s.live + spec_balance(evs.take(k + 1)) >= 1);
        }
        lemma_run_to_zero(s1, rest);
    }
}

/// N clients attaching and detaching in any order that keeps the session
/// alive until the last one leaves: the counter returns to exactly zero and
/// the shutdown signal fires exactly once.
pub proof fn lemma_cycles_signal_once(evs: Seq<BrokerEvent>, n: int)
    requires
        n >= 1,
        spec_attach_count(evs) == n,
        spec_detach_count(evs) == n,
        forall|k: int| 0 < k < evs.len() ==> spec_balance(#[trigger] evs.take(k)) >= 1,
    ensures
        spec_broker_run(spec_broker_init(), evs) == (BrokerModel { live: 0, signal_fired: true }),
        spec_fire_count(spec_broker_init(), evs) == 1,
{
    let s = spec_broker_init();
    assert(evs.len() > 0) by {
        if evs.len() == 0 {
            assert(spec_attach_count(evs) == 0);
        }
    }
    lemma_run_to_zero(s, evs);
}

/// The live broker state: a counter and a one-shot signal flag. The real
/// service updates the counter around each connection's lifetime; the
/// transition logic is verified here against the broker model.
pub struct Broker {
    pub live: u64,
    pub signal_fired: bool,
}

impl Broker {
    /// The abstract state.
    pub open spec fn model(&self) -> BrokerModel {
        BrokerModel { live: self.live as int, signal_fired: self.signal_fired }
    }

    /// A broker starts with no clients and the signal unfired.
    pub fn new() -> (b: Broker)
        ensures
            b.model() == spec_broker_init(),
    {
        Broker { live: 0, signal_fired: false }
    }

    /// How many clients are attached.
    pub fn client_count(&self) -> (n: u64)
        ensures
            n as int == self.model().live,
    {
        self.live
    }

    /// Record one accepted connection. Rejected — nothing changes — after the
    /// shutdown signal has fired.
    pub fn attach(&mut self) -> (accepted: bool)
        requires
            old(self).live < u64::MAX,
        ensures
            final(self).model() == spec_broker_step(old(self).model(), BrokerEvent::Attach).0,
            accepted == !old(self).signal_fired,
    {
        if self.signal_fired {
            false
        } else {
            self.live = self.live + 1;
            true
        }
    }

    /// Record one client leaving. Returns whether the shutdown signal fires
    /// at this step: exactly at the transition from one live connection to
    /// zero, and never again.
    pub fn detach(&mut self) -> (fired: bool)
        requires
            old(self).live > 0,
        ensures
            final(self).model() == spec_broker_step(old(self).model(), BrokerEvent::Detach).0,
            fired == spec_broker_step(old(self).model(), BrokerEvent::Detach).1,
    {
        self.live = self.live - 1;
        let fire = self.live == 0 && !self.signal_fired;
        if fire {
            self.signal_fired = true;
        }
        fire
    }
}

/// The two-byte little-endian payload the broker writes to each client on
/// connect: the VM's display port.
pub fn port_payload(port: u16) -> (b: Vec<u8>)
    ensures
        b@ == spec_u16_to_le_bytes(port),
        b@.len() == 2,
{
    proof {
        lemma_auto_spec_u16_to_from_le_bytes();
    }
    u16_to_le_bytes(port)
}

/// The display port read back from the two-byte payload.
pub fn parse_port_payload(b: &[u8]) -> (port: u16)
    requires
        b@.len() == 2,
    ensures
        port == spec_u16_from_le_bytes(b@),
{
    u16_from_le_bytes(b)
}

/// A port always survives the trip through the broker's payload.
pub proof fn lemma_port_payload_round_trip(port: u16)
    ensures
        spec_u16_from_le_bytes(spec_u16_to_le_bytes(port)) == port,
        spec_u16_to_le_bytes(port).len() == 2,
{
    lemma_auto_spec_u16_to_from_le_bytes();
    assert(spec_u16_to_le_bytes(port).len() == 2);
}

} // verus!
