//! The discrete-time simulation loop.
//!
//! The loop advances a tick counter, dispatches due events to the rate
//! controller and applies the timer-gated periodic updates.  Its whole
//! behaviour is captured by the spec function `sim`; the executable `run` is
//! proved to return exactly `sim` of its inputs, so a run is a pure function
//! of the configuration and the trace.

use vstd::prelude::*;
use crate::dyadic::{Dyadic, dy_le};
use crate::error::SimError;
use crate::event::{Packet, PktType, ticks_strictly_increasing};
use crate::controller::{
    Dcqcn, cut_fits, spec_cut, decay_fits, spec_decay, advance_fits, spec_advance,
};

verus! {

/// One tick's timer work: both counters advance; when a counter passes its
/// threshold the matching periodic update fires and the counter restarts.
/// `Err` when an exact update would leave the representation.
pub open spec fn spec_tick(s: Dcqcn) -> Result<Dcqcn, SimError> {
    let s1 = Dcqcn {
        alpha_time_counter: (s.alpha_time_counter + 1) as u64,
        increase_time_counter: (s.increase_time_counter + 1) as u64,
        ..s
    };
    if s1.alpha_time_counter > s1.alpha_timer {
        if decay_fits(s1) {
            let s2 = Dcqcn { alpha_time_counter: 0, ..spec_decay(s1) };
            if s2.increase_time_counter > s2.increase_timer {
                if advance_fits(s2) {
                    Ok(Dcqcn { increase_time_counter: 0, ..spec_advance(s2) })
                } else {
                    Err(SimError::Overflow)
                }
            } else {
                Ok(s2)
            }
        } else {
            Err(SimError::Overflow)
        }
    } else {
        if s1.increase_time_counter > s1.increase_timer {
            if advance_fits(s1) {
                Ok(Dcqcn { increase_time_counter: 0, ..spec_advance(s1) })
            } else {
                Err(SimError::Overflow)
            }
        } else {
            Ok(s1)
        }
    }
}

/// Every tick preserves the state invariants: `alpha` stays in `[0, 1]`,
/// the rate stays in `[0, bandwidth]`, the configuration is untouched and
/// the recovery stage never decreases.
pub proof fn lemma_tick_preserves_invariants(s: Dcqcn)
    requires
        s.wf(),
    ensures
        spec_tick(s) matches Ok(s2) ==> s2.wf() && s2.bandwidth == s.bandwidth && s2.g == s.g
            && s2.recovery_stage >= s.recovery_stage,
{
    let s1 = Dcqcn {
        alpha_time_counter: (s.alpha_time_counter + 1) as u64,
        increase_time_counter: (s.increase_time_counter + 1) as u64,
        ..s
    };
    if s1.alpha_time_counter > s1.alpha_timer && decay_fits(s1) {
        crate::controller::lemma_decay_preserves_wf(s1);
        let s2 = Dcqcn { alpha_time_counter: 0, ..spec_decay(s1) };
        if s2.increase_time_counter > s2.increase_timer && advance_fits(s2) {
            crate::controller::lemma_advance_preserves_wf(s2);
        }
    } else if s1.increase_time_counter > s1.increase_timer && advance_fits(s1) {
        crate::controller::lemma_advance_preserves_wf(s1);
    }
}

/// The loop is mid-run: an event is pending and the clock has not passed it.
pub open spec fn sim_live(events: Seq<Packet>, idx: int, timer: u64) -> bool {
    &&& 0 <= idx < events.len()
    &&& ticks_strictly_increasing(events)
    &&& timer <= events[idx].recv_time
}

/// The rest of a run, one recursive step per loop iteration.  Each iteration
/// first observes `(timer, current_rate)`, then dispatches a due event
/// (congestion notification: cut; data unit: `NotImplemented`; stream end:
/// normal completion, as is exhaustion of the source), then advances the
/// clock and applies the timer work.
pub open spec fn sim_from(
    s: Dcqcn,
    events: Seq<Packet>,
    idx: int,
    timer: u64,
    acc: Seq<(u64, Dyadic)>,
) -> Result<Seq<(u64, Dyadic)>, SimError>
    decreases events.len() - idx, events[idx].recv_time - timer,
        when sim_live(events, idx, timer)
{
    let acc2 = acc.push((timer, s.current_rate));
    if events[idx].recv_time == timer {
        match events[idx].pkt_type {
            PktType::END => Ok(acc2),
            PktType::UDP => Err(SimError::NotImplemented),
            PktType::CNP => {
                if cut_fits(s) {
                    if idx + 1 == events.len() {
                        Ok(acc2)
                    } else {
                        match spec_tick(spec_cut(s)) {
                            Ok(s2) => sim_from(s2, events, idx + 1, (timer + 1) as u64, acc2),
                            Err(e) => Err(e),
                        }
                    }
                } else {
                    Err(SimError::Overflow)
                }
            },
        }
    } else {
        match spec_tick(s) {
            Ok(s2) => sim_from(s2, events, idx, (timer + 1) as u64, acc2),
            Err(e) => Err(e),
        }
    }
}

/// A whole run from tick 0: the trajectory of `(tick, current_rate)` pairs
/// it observes, or the typed failure that aborts it.  An empty trace fails
/// with `InvalidTrace` before any tick is processed.
pub open spec fn sim(s: Dcqcn, events: Seq<Packet>) -> Result<Seq<(u64, Dyadic)>, SimError> {
    if events.len() == 0 {
        Err(SimError::InvalidTrace)
    } else {
        sim_from(s, events, 0, 0, Seq::empty())
    }
}

/// Determinism: replaying an identical event sequence against an
/// identically configured controller reproduces the identical trajectory —
/// a run is a pure function of controller and trace.
pub proof fn lemma_run_deterministic(c1: Dcqcn, c2: Dcqcn, e1: Seq<Packet>, e2: Seq<Packet>)
    requires
        c1 == c2,
        e1 == e2,
    ensures
        sim(c1, e1) == sim(c2, e2),
{
}

/// Drive a configured controller over a trace.  Returns exactly `sim` of
/// the inputs: the observed `(tick, current_rate)` trajectory on normal
/// completion, and every observed rate lies in `[0, bandwidth]`.
pub fn run(ctl: Dcqcn, events: &Vec<Packet>) -> (r: Result<Vec<(u64, Dyadic)>, SimError>)
    requires
        ctl.wf(),
        ctl.alpha_time_counter <= ctl.alpha_timer,
        ctl.increase_time_counter <= ctl.increase_timer,
        ticks_strictly_increasing(events@),
    ensures
        (match r {
            Ok(v) => sim(ctl, events@) == Ok::<Seq<(u64, Dyadic)>, SimError>(v@),
            Err(e) => sim(ctl, events@) == Err::<Seq<(u64, Dyadic)>, SimError>(e),
        }),
        r == Err::<Vec<(u64, Dyadic)>, SimError>(SimError::InvalidTrace) <==> events@.len() == 0,
        r matches Ok(v) ==> forall|i: int|
            0 <= i < v@.len() ==> dy_le(#[trigger] v@[i].1, ctl.bandwidth),
        r matches Ok(v) ==> forall|i: int| 0 <= i < v@.len() ==> (#[trigger] v@[i].0) == i,
{
    if events.len() == 0 {
        return Err(SimError::InvalidTrace);
    }
    let mut s = ctl;
    let mut idx: usize = 0;
    let mut timer: u64 = 0;
    let mut traj: Vec<(u64, Dyadic)> = Vec::new();
    loop
        invariant
            s.wf(),
            s.alpha_time_counter <= s.alpha_timer,
            s.increase_time_counter <= s.increase_timer,
            s.bandwidth == ctl.bandwidth,
            0 <= idx < events@.len(),
            events@.len() <= usize::MAX,
            ticks_strictly_increasing(events@),
            timer <= events@[idx as int].recv_time,
            sim(ctl, events@) == sim_from(s, events@, idx as int, timer, traj@),
            forall|i: int| 0 <= i < traj@.len() ==> dy_le(#[trigger] traj@[i].1, ctl.bandwidth),
            timer == traj@.len(),
            forall|i: int| 0 <= i < traj@.len() ==> (#[trigger] traj@[i].0) == i,
        decreases events@.len() - idx, events@[idx as int].recv_time - timer,
    {
        traj.push((timer, s.current_rate));
        let pkt = events[idx];
        if pkt.recv_time == timer {
            match pkt.pkt_type {
                PktType::END => {
                    return Ok(traj);
                },
                PktType::UDP => {
                    return Err(SimError::NotImplemented);
                },
                PktType::CNP => {
                    match s.on_congestion_notification() {
                        Ok(()) => {},
                        Err(e) => {
                            return Err(e);
                        },
                    }
                    idx = idx + 1;
                    if idx == events.len() {
                        return Ok(traj);
                    }
                },
            }
        }
        proof {
            // whether or not an event fired, the pending event is still ahead
            // of the clock, so advancing it cannot wrap
            assert(timer < events@[idx as int].recv_time);
        }
        timer = timer + 1;
        s.alpha_time_counter = s.alpha_time_counter + 1;
        s.increase_time_counter = s.increase_time_counter + 1;
        if s.alpha_time_counter > s.alpha_timer {
            match s.decay_alpha() {
                Ok(()) => {},
                Err(e) => {
                    return Err(e);
                },
            }
            s.alpha_time_counter = 0;
        }
        if s.increase_time_counter > s.increase_timer {
            match s.advance_recovery() {
                Ok(()) => {},
                Err(e) => {
                    return Err(e);
                },
            }
            s.increase_time_counter = 0;
        }
    }
}

} // verus!
