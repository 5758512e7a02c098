use dcqcn::controller::Dcqcn;
use dcqcn::dyadic::Dyadic;
use dcqcn::error::SimError;
use dcqcn::event::{generate_pakcets, ticks_sorted, Packet, PktType};
use dcqcn::sim::run;

fn default_controller() -> Dcqcn {
    Dcqcn::try_new(
        Dyadic { num: 1, exp: 8 },
        55,
        55,
        5,
        Dyadic::from_int(40),
        Dyadic::from_int(100),
        Dyadic::from_int(102400),
    )
    .unwrap()
}

#[test]
fn generate_pakcets_is_the_stub_trace() {
    let pkts = generate_pakcets();
    assert_eq!(pkts.len(), 2);
    assert_eq!(pkts[0], Packet { pkt_type: PktType::CNP, recv_time: 1 });
    assert_eq!(pkts[1], Packet { pkt_type: PktType::END, recv_time: 100 });
    assert!(ticks_sorted(&pkts));
}

#[test]
fn ticks_sorted_rejects_disorder() {
    let bad = vec![Packet::new(PktType::CNP, 5), Packet::new(PktType::END, 5)];
    assert!(!ticks_sorted(&bad));
    let good = vec![Packet::new(PktType::CNP, 5), Packet::new(PktType::END, 6)];
    assert!(ticks_sorted(&good));
    let empty: Vec<Packet> = Vec::new();
    assert!(ticks_sorted(&empty));
}

#[test]
fn default_scenario_trajectory() {
    // one cut at tick 1, one decay and one fast-recovery firing at tick 56,
    // normal completion at tick 100
    let traj = run(default_controller(), &generate_pakcets()).unwrap();
    assert_eq!(traj.len(), 101);
    for (i, entry) in traj.iter().enumerate() {
        assert_eq!(entry.0, i as u64);
    }
    // before the cut the rate is the full bandwidth
    assert_eq!(traj[0].1, Dyadic::from_int(102400));
    assert_eq!(traj[1].1, Dyadic::from_int(102400));
    // the cut at tick 1 halves the rate (alpha was exactly 1)
    for t in 2..=56 {
        assert_eq!(traj[t].1, Dyadic { num: 102400, exp: 1 });
    }
    assert!(traj[2].1.eq_value(&Dyadic::from_int(51200)));
    // the increase timer fires during tick 56: fast recovery moves the rate
    // halfway back toward the pre-cut target
    for t in 57..=100 {
        assert_eq!(traj[t].1, Dyadic { num: 153600, exp: 1 });
    }
    assert!(traj[57].1.eq_value(&Dyadic::from_int(76800)));
}

#[test]
fn every_observed_rate_stays_within_bandwidth() {
    let bw = Dyadic::from_int(102400);
    let traj = run(default_controller(), &generate_pakcets()).unwrap();
    for entry in traj.iter() {
        assert!(entry.1.le(&bw));
    }
}

#[test]
fn replay_is_deterministic() {
    let a = run(default_controller(), &generate_pakcets());
    let b = run(default_controller(), &generate_pakcets());
    assert_eq!(a, b);
}

#[test]
fn empty_trace_is_invalid() {
    let events: Vec<Packet> = Vec::new();
    assert_eq!(run(default_controller(), &events), Err(SimError::InvalidTrace));
}

#[test]
fn data_unit_is_not_implemented() {
    let events = vec![
        Packet::new(PktType::CNP, 1),
        Packet::new(PktType::UDP, 3),
        Packet::new(PktType::END, 100),
    ];
    assert_eq!(run(default_controller(), &events), Err(SimError::NotImplemented));
    // a data unit at tick 0 aborts before anything else
    let head = vec![Packet::new(PktType::UDP, 0)];
    assert_eq!(run(default_controller(), &head), Err(SimError::NotImplemented));
}

#[test]
fn exhaustion_without_stream_end_completes_normally() {
    let events = vec![Packet::new(PktType::CNP, 3)];
    let traj = run(default_controller(), &events).unwrap();
    // ticks 0 through 3 are observed, then the source is exhausted
    assert_eq!(traj.len(), 4);
    assert_eq!(traj[3].1, Dyadic::from_int(102400));
}

#[test]
fn overflow_inside_a_run_aborts_it() {
    // g = 1/2^60 with the alpha timer at 0 decays every tick; the second
    // decay cannot be represented
    let ctl = Dcqcn::try_new(
        Dyadic { num: 1, exp: 60 },
        0,
        55,
        5,
        Dyadic::from_int(40),
        Dyadic::from_int(100),
        Dyadic::from_int(102400),
    )
    .unwrap();
    let events = vec![Packet::new(PktType::END, 50)];
    assert_eq!(run(ctl, &events), Err(SimError::Overflow));
}

#[test]
fn stream_end_at_tick_zero_observes_one_tick() {
    let events = vec![Packet::new(PktType::END, 0)];
    let traj = run(default_controller(), &events).unwrap();
    assert_eq!(traj, vec![(0, Dyadic::from_int(102400))]);
}
