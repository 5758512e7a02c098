//! Events and the event source.
//!
//! A packet is one occurrence — a congestion notification, a data unit, or
//! the end of the stream — stamped with the simulated tick at which it
//! becomes due.  A source supplies a finite sequence of packets whose ticks
//! strictly increase.

use vstd::prelude::*;

verus! {

/// The kind of an observed packet.
#[derive(Clone, Copy, Debug, PartialEq, Eq, Structural)]
pub enum PktType {
    /// An ordinary data unit (handling it is a stubbed capability).
    UDP,
    /// A congestion notification: the controller must cut its rate.
    CNP,
    /// End of the stream: the run completes normally.
    END,
}

/// One event: a kind and the tick at which it is due.
#[derive(Clone, Copy, Debug, PartialEq, Eq, Structural)]
pub struct Packet {
    pub pkt_type: PktType,
    pub recv_time: u64,
}

impl Packet {
    pub fn new(pkt_type: PktType, recv_time: u64) -> (r: Packet)
        ensures
            r == (Packet { pkt_type, recv_time }),
    {
        Packet { pkt_type, recv_time }
    }
}

/// Due ticks strictly increase along the trace, so each event fires in a
/// tick of its own and the loop always makes progress.
pub open spec fn ticks_strictly_increasing(events: Seq<Packet>) -> bool {
    forall|i: int|
        0 <= i && i + 1 < events.len() ==> events[i].recv_time < #[trigger] events[i + 1].recv_time
}

/// Runtime check of `ticks_strictly_increasing`, for callers that receive a
/// trace from outside.
pub fn ticks_sorted(events: &Vec<Packet>) -> (r: bool)
    ensures
        r == ticks_strictly_increasing(events@),
{
    let n = events.len();
    if n == 0 {
        return true;
    }
    let mut i: usize = 0;
    while i + 1 < n
        invariant
            n == events@.len(),
            i < n,
            forall|j: int|
                0 <= j && j + 1 <= i as int ==> events@[j].recv_time < #[trigger] events@[j
                    + 1].recv_time,
        decreases n - i,
    {
        if events[i].recv_time >= events[i + 1].recv_time {
            return false;
        }
        i = i + 1;
    }
    true
}

/// The stub trace: one congestion notification at tick 1, then the end of
/// the stream at tick 100.
pub fn generate_pakcets() -> (r: Vec<Packet>)
    ensures
        r@.len() == 2,
        r@[0] == (Packet { pkt_type: PktType::CNP, recv_time: 1 }),
        r@[1] == (Packet { pkt_type: PktType::END, recv_time: 100 }),
{
    let mut v: Vec<Packet> = Vec::new();
    v.push(Packet::new(PktType::CNP, 1));
    v.push(Packet::new(PktType::END, 100));
    v
}

} // verus!
