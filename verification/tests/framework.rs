use maybenot::action::{Action, Timer, TriggerAction};
use maybenot::dist::{Dist, DistType, Sampler};
use maybenot::error::{Error, MachineFault};
use maybenot::constants::{STATE_CANCEL, STATE_END, STATE_LIMIT_MAX};
use maybenot::event::Event;
use maybenot::fixed::Fixed;
use maybenot::framework::{Framework, MachineId, TriggerEvent};
use maybenot::machine::Machine;
use maybenot::state::{State, Trans};
use maybenot::time::{Duration, Instant};
use rand::rngs::StdRng;
use rand::Rng;
use rand::SeedableRng;

fn fx(x: f64) -> Fixed {
    Fixed::from_millionths((x * 1_000_000.0).round() as i64)
}

fn uniform(low: f64, high: f64) -> Dist {
    Dist {
        dist: DistType::Uniform {
            low: fx(low),
            high: fx(high),
        },
        start: fx(0.0),
        max: fx(0.0),
    }
}

fn padding(timeout: f64) -> Option<Action> {
    Some(Action::SendPadding {
        bypass: false,
        replace: false,
        timeout: uniform(timeout, timeout),
        limit: None,
    })
}

fn blocking(timeout: f64, duration: f64) -> Option<Action> {
    Some(Action::BlockOutgoing {
        bypass: false,
        replace: false,
        timeout: uniform(timeout, timeout),
        duration: uniform(duration, duration),
        limit: None,
    })
}

fn send_padding(timeout: u64, machine: usize) -> Option<TriggerAction> {
    Some(TriggerAction::SendPadding {
        timeout: Duration::from_micros(timeout),
        bypass: false,
        replace: false,
        machine: MachineId::from_raw(machine),
    })
}

fn block_outgoing(timeout: u64, duration: u64, machine: usize) -> Option<TriggerAction> {
    Some(TriggerAction::BlockOutgoing {
        timeout: Duration::from_micros(timeout),
        duration: Duration::from_micros(duration),
        bypass: false,
        replace: false,
        machine: MachineId::from_raw(machine),
    })
}

/// A state that goes to `target` with certainty on each of `events`.
fn state_to(events: &[Event], target: usize) -> State {
    State::new(
        events
            .iter()
            .map(|e| (*e, vec![Trans(target, fx(1.0))]))
            .collect(),
    )
}

fn machine(
    allowed_padding_bytes: u64,
    max_padding_frac: f64,
    allowed_blocked_microsec: u64,
    max_blocking_frac: f64,
    states: Vec<State>,
    include_small_packets: bool,
) -> Machine {
    Machine {
        allowed_padding_bytes,
        max_padding_frac: fx(max_padding_frac),
        allowed_blocked_microsec,
        max_blocking_frac: fx(max_blocking_frac),
        states,
        include_small_packets,
    }
}

/// Draws the low end of a uniform range, the mean or the rate otherwise.
struct Fixture;

impl Sampler for Fixture {
    fn draw(&mut self, dist: &DistType, _rng: &mut StdRng) -> Fixed {
        match dist {
            DistType::Uniform { low, .. } => *low,
            DistType::Normal { mean, .. } => *mean,
            DistType::LogNormal { mu, .. } => *mu,
            DistType::Poisson { lambda } => *lambda,
        }
    }
}

fn framework(
    machines: Vec<Machine>,
    max_padding_frac: f64,
    max_blocking_frac: f64,
    current_time: Instant,
) -> Result<Framework<Fixture>, Error> {
    Framework::new(
        machines,
        fx(max_padding_frac),
        fx(max_blocking_frac),
        current_time,
        StdRng::seed_from_u64(7),
        Fixture,
    )
}

fn later(t: Instant, micros: u64) -> Instant {
    t.checked_add(Duration::from_micros(micros)).unwrap()
}

#[test]
fn no_machines() {
    let f = framework(vec![], 0.0, 0.0, Instant::from_micros(150));
    assert!(!f.is_err());
}

#[test]
fn trigger_events_actions() {
    // plan: create a machine that swaps between two states, trigger one
    // then multiple events and check the resulting actions

    // state 0: go to state 1 on PaddingSent, pad after 10 usec
    let mut s0 = state_to(&[Event::PaddingSent], 1);
    s0.action = padding(10.0);

    // state 1: go to state 0 on PaddingRecv, pad after 1 usec
    let mut s1 = state_to(&[Event::PaddingRecv], 0);
    s1.action = padding(1.0);

    // create a simple machine
    let m = machine(1000 * 1024, 1.0, 0, 0.0, vec![s0, s1], true);

    let mut current_time = Instant::from_micros(0);
    let mut f = framework(vec![m], 0.0, 0.0, current_time).unwrap();

    assert_eq!(f.num_machines(), 1);

    // start triggering
    _ = f.trigger_events(
        &[TriggerEvent::BlockingBegin {
            machine: MachineId::from_raw(0),
        }],
        current_time,
    );
    assert_eq!(f.action(0), None);

    // move time forward, trigger again to make sure no scheduled timer
    current_time = later(current_time, 20);
    _ = f.trigger_events(
        &[TriggerEvent::BlockingBegin {
            machine: MachineId::from_raw(0),
        }],
        current_time,
    );
    assert_eq!(f.action(0), None);

    // trigger transition to next state
    _ = f.trigger_events(
        &[TriggerEvent::PaddingSent {
            bytes_sent: 0,
            machine: MachineId::from_raw(0),
        }],
        current_time,
    );
    assert_eq!(f.action(0), send_padding(1, 0));

    // increase time, trigger event, make sure no further action
    current_time = later(current_time, 20);
    _ = f.trigger_events(
        &[TriggerEvent::PaddingSent {
            bytes_sent: 0,
            machine: MachineId::from_raw(0),
        }],
        current_time,
    );
    assert_eq!(f.action(0), None);

    // go back to state 0
    _ = f.trigger_events(&[TriggerEvent::PaddingRecv { bytes_recv: 0 }], current_time);
    assert_eq!(f.action(0), send_padding(10, 0));

    // test multiple triggers overwriting actions
    for _ in 0..10 {
        _ = f.trigger_events(
            &[
                TriggerEvent::PaddingSent {
                    bytes_sent: 0,
                    machine: MachineId::from_raw(0),
                },
                TriggerEvent::PaddingRecv { bytes_recv: 0 },
            ],
            current_time,
        );
        assert_eq!(f.action(0), send_padding(10, 0));
    }

    // triple trigger, swapping between states
    for i in 0..10 {
        if i % 2 == 0 {
            _ = f.trigger_events(
                &[
                    TriggerEvent::PaddingRecv { bytes_recv: 0 },
                    TriggerEvent::PaddingSent {
                        bytes_sent: 0,
                        machine: MachineId::from_raw(0),
                    },
                    TriggerEvent::PaddingRecv { bytes_recv: 0 },
                ],
                current_time,
            );
            assert_eq!(f.action(0), send_padding(10, 0));
        } else {
            _ = f.trigger_events(
                &[
                    TriggerEvent::PaddingSent {
                        bytes_sent: 0,
                        machine: MachineId::from_raw(0),
                    },
                    TriggerEvent::PaddingRecv { bytes_recv: 0 },
                    TriggerEvent::PaddingSent {
                        bytes_sent: 0,
                        machine: MachineId::from_raw(0),
                    },
                ],
                current_time,
            );
            assert_eq!(f.action(0), send_padding(1, 0));
        }
    }
}

#[test]
fn validate_machine() {
    // invalid state transition
    let mut s0 = state_to(&[Event::PaddingSent], 1);
    s0.action = padding(10.0);

    // machine with broken state
    let m = machine(1000 * 1024, 1.0, 0, 0.0, vec![s0.clone()], true);
    let r = m.validate();
    println!("{:?}", r.as_ref().err());
    assert!(r.is_err());

    // repair state
    let mut s0 = state_to(&[Event::PaddingSent], 0);
    s0.action = padding(10.0);
    let m = machine(1000 * 1024, 1.0, 0, 0.0, vec![s0.clone()], true);

    let r = m.validate();
    println!("{:?}", r.as_ref().err());
    assert!(r.is_ok());

    // invalid machine lacking state
    let m = machine(1000 * 1024, 1.0, 0, 0.0, vec![], true);
    let r = m.validate();
    println!("{:?}", r.as_ref().err());
    assert!(r.is_err());

    // bad padding and blocking fractions
    let mut m = machine(1000 * 1024, 1.0, 0, 0.0, vec![s0.clone()], true);

    m.max_padding_frac = fx(-0.1);
    let r = m.validate();
    println!("{:?}", r.as_ref().err());
    assert!(r.is_err());
    m.max_padding_frac = fx(1.1);
    let r = m.validate();
    println!("{:?}", r.as_ref().err());
    assert!(r.is_err());
    m.max_padding_frac = fx(0.5);

    m.max_blocking_frac = fx(-0.1);
    let r = m.validate();
    println!("{:?}", r.as_ref().err());
    assert!(r.is_err());
    m.max_blocking_frac = fx(1.1);
    let r = m.validate();
    println!("{:?}", r.as_ref().err());
    assert!(r.is_err());
    m.max_blocking_frac = fx(0.5);
}

#[test]
fn blocking_machine() {
    // a machine that blocks for 10us, 1us after NormalSent
    let mut s0 = state_to(&[Event::NormalSent], 1);
    s0.action = padding(0.0);
    let mut s1 = state_to(&[Event::NormalSent], 1);
    s1.action = blocking(1.0, 10.0);

    let m = machine(1000 * 1024, 1.0, 0, 0.0, vec![s0, s1], true);

    let mut current_time = Instant::from_micros(0);
    let mut f = framework(vec![m], 0.0, 0.0, current_time).unwrap();

    _ = f.trigger_events(&[TriggerEvent::NormalSent { bytes_sent: 0 }], current_time);
    assert_eq!(f.action(0), block_outgoing(1, 10, 0));

    current_time = later(current_time, 20);
    _ = f.trigger_events(
        &[TriggerEvent::BlockingBegin {
            machine: MachineId::from_raw(0),
        }],
        current_time,
    );
    assert_eq!(f.action(0), None);

    for _ in 0..10 {
        current_time = later(current_time, 1);
        _ = f.trigger_events(&[TriggerEvent::NormalSent { bytes_sent: 0 }], current_time);
        assert_eq!(f.action(0), block_outgoing(1, 10, 0));
    }
}

#[test]
fn machine_max_padding_frac() {
    // We create a machine that should be allowed to send 100*MTU padding
    // bytes before machine padding limits are applied, then the machine
    // should be limited from sending any padding until at least 100*MTU
    // nonpadding bytes have been sent, given the set max padding fraction
    // of 0.5.
    let mtu: u16 = 1000;

    let s0 = state_to(&[Event::NormalRecv], 1);

    // we use sent for checking limits, recv as an event to check without
    // adding bytes sent
    let mut s1 = state_to(
        &[Event::PaddingSent, Event::NormalSent, Event::NormalRecv],
        1,
    );
    s1.action = padding(2.0);

    let m = machine(100 * (mtu as u64), 0.5, 0, 0.0, vec![s0, s1], true);
    let current_time = Instant::from_micros(0);
    let mut f = framework(vec![m], 0.0, 0.0, current_time).unwrap();

    // transition to get the loop going
    _ = f.trigger_events(&[TriggerEvent::NormalRecv { bytes_recv: 0 }], current_time);

    // we expect 100 padding actions
    for _ in 0..100 {
        assert_eq!(f.action(0), send_padding(2, 0));

        _ = f.trigger_events(
            &[TriggerEvent::PaddingSent {
                bytes_sent: mtu,
                machine: MachineId::from_raw(0),
            }],
            current_time,
        );
    }

    // limit hit, last event should prevent the action
    assert_eq!(f.action(0), None);

    // trigger and check limit again
    _ = f.trigger_events(&[TriggerEvent::NormalRecv { bytes_recv: mtu }], current_time);
    assert_eq!(f.action(0), None);

    // verify that no padding is scheduled until we've sent the same amount
    // of bytes
    for _ in 0..100 {
        _ = f.trigger_events(&[TriggerEvent::NormalSent { bytes_sent: mtu }], current_time);
        assert_eq!(f.action(0), None);
    }

    // send one byte of nonpadding, putting us just over the limit
    _ = f.trigger_events(&[TriggerEvent::NormalSent { bytes_sent: 1 }], current_time);
    assert_eq!(f.action(0), send_padding(2, 0));
}

#[test]
fn framework_max_padding_frac() {
    // to test the global limits of the framework we create two machines with
    // the same allowed padding, where both machines pad in parallel
    let mtu: u16 = 1000;

    let s0 = state_to(&[Event::NormalRecv], 1);
    let mut s1 = state_to(
        &[Event::PaddingSent, Event::NormalSent, Event::NormalRecv],
        1,
    );
    s1.action = padding(2.0);

    // NOTE 0.0 max_padding_frac in the machines
    let m1 = machine(100 * (mtu as u64), 0.0, 0, 0.0, vec![s0, s1], true);
    let m2 = m1.clone();

    // NOTE 0.5 max_padding_frac below
    let current_time = Instant::from_micros(0);
    let mut f = framework(vec![m1, m2], 0.5, 0.0, current_time).unwrap();

    // we have two machines that each can send 100 * mtu before their own or
    // any framework limits are applied
    // trigger transition to get the loop going
    _ = f.trigger_events(&[TriggerEvent::NormalRecv { bytes_recv: 0 }], current_time);
    // we expect 100 padding actions per machine
    for _ in 0..100 {
        assert_eq!(f.action(0), send_padding(2, 0));
        assert_eq!(f.action(1), send_padding(2, 1));
        _ = f.trigger_events(
            &[
                TriggerEvent::PaddingSent {
                    bytes_sent: mtu,
                    machine: MachineId::from_raw(0),
                },
                TriggerEvent::PaddingSent {
                    bytes_sent: mtu,
                    machine: MachineId::from_raw(1),
                },
            ],
            current_time,
        );
    }

    // limit hit, last event should prevent the action and future actions
    assert_eq!(f.action(0), None);
    assert_eq!(f.action(1), None);
    _ = f.trigger_events(
        &[
            TriggerEvent::NormalRecv { bytes_recv: mtu },
            TriggerEvent::NormalRecv { bytes_recv: mtu },
        ],
        current_time,
    );
    assert_eq!(f.action(0), None);
    assert_eq!(f.action(1), None);

    // in sync?
    assert_eq!(
        f.runtime(0).unwrap().padding_sent,
        f.runtime(1).unwrap().padding_sent
    );
    assert_eq!(f.runtime(0).unwrap().padding_sent, 100 * (mtu as u64));

    // OK, so we've sent in total 2*100*mtu of padding using two machines. This
    // means that we should need to send at least 2*100*mtu + 1 bytes before
    // padding is scheduled again
    for _ in 0..200 {
        assert_eq!(f.action(0), None);
        assert_eq!(f.action(1), None);
        _ = f.trigger_events(&[TriggerEvent::NormalSent { bytes_sent: mtu }], current_time);
    }

    // the last byte should tip it over
    _ = f.trigger_events(&[TriggerEvent::NormalSent { bytes_sent: 1 }], current_time);
    assert_eq!(f.action(0), send_padding(2, 0));
    assert_eq!(f.action(1), send_padding(2, 1));
}

fn blocking_frac_scenario(machine_frac: f64, framework_frac: f64) {
    let s0 = state_to(&[Event::NormalRecv], 1);
    let mut s1 = state_to(
        &[Event::BlockingBegin, Event::BlockingEnd, Event::NormalRecv],
        1,
    );
    // block every 2us for 2us
    s1.action = blocking(2.0, 2.0);

    let m = machine(0, 0.0, 10, machine_frac, vec![s0, s1], false);

    let mut current_time = Instant::from_micros(0);
    let mut f = framework(vec![m], 0.0, framework_frac, current_time).unwrap();

    // trigger self to start the blocking (triggers action)
    _ = f.trigger_events(&[TriggerEvent::NormalRecv { bytes_recv: 0 }], current_time);

    // verify that we can block for 5*2=10us
    for _ in 0..5 {
        assert_eq!(f.action(0), block_outgoing(2, 2, 0));

        _ = f.trigger_events(
            &[TriggerEvent::BlockingBegin {
                machine: MachineId::from_raw(0),
            }],
            current_time,
        );
        assert_eq!(f.action(0), block_outgoing(2, 2, 0));
        current_time = later(current_time, 2);
        _ = f.trigger_events(&[TriggerEvent::BlockingEnd], current_time);
    }
    assert_eq!(f.action(0), None);
    assert_eq!(
        f.runtime(0).unwrap().blocking_duration,
        Duration::from_micros(10)
    );

    // now we burn our allowed padding budget, should be blocked for 10us
    for _ in 0..5 {
        current_time = later(current_time, 2);
        _ = f.trigger_events(&[TriggerEvent::NormalRecv { bytes_recv: 1000 }], current_time);
        assert_eq!(f.action(0), None);
    }
    assert_eq!(
        f.runtime(0).unwrap().blocking_duration,
        Duration::from_micros(10)
    );
    assert_eq!(
        current_time.duration_since(f.runtime(0).unwrap().machine_start),
        Duration::from_micros(20)
    );

    // push over the limit, should be allowed
    current_time = later(current_time, 2);
    _ = f.trigger_events(&[TriggerEvent::NormalRecv { bytes_recv: 1000 }], current_time);
    assert_eq!(f.action(0), block_outgoing(2, 2, 0));
}

#[test]
fn machine_max_blocking_frac() {
    // We create a machine that should be allowed to block for 10us before
    // machine limits are applied, then the machine should be limited from
    // blocking until after 10us, given the set max blocking fraction of
    // 0.5.
    blocking_frac_scenario(0.5, 0.0);
}

#[test]
fn framework_max_blocking_frac() {
    // The same with 0.0 in the machine and 0.5 in the framework.
    blocking_frac_scenario(0.0, 0.5);
}

#[test]
fn framework_machine_sampled_limit() {
    // we create a machine that samples a padding limit of 4 padding sent,
    // then should be prevented from padding further by transitioning to
    // self
    let s0 = state_to(&[Event::NormalSent], 1);
    let mut s1 = state_to(&[Event::PaddingSent], 1);
    s1.action = Some(Action::SendPadding {
        bypass: false,
        replace: false,
        timeout: uniform(1.0, 1.0),
        limit: Some(uniform(4.0, 4.0)),
    });

    // NOTE, the limits on padding will not apply
    let m = machine(100000, 1.0, 0, 0.0, vec![s0, s1], false);

    let mut current_time = Instant::from_micros(0);
    let mtu: u16 = 1500;
    let mut f = framework(vec![m], 1.0, 0.0, current_time).unwrap();

    // trigger self to start the padding
    _ = f.trigger_events(&[TriggerEvent::NormalSent { bytes_sent: 100 }], current_time);

    assert_eq!(f.runtime(0).unwrap().state_limit, 4);

    // verify that we can send 4 padding
    for _ in 0..4 {
        assert_eq!(f.action(0), send_padding(1, 0));
        current_time = later(current_time, 1);
        _ = f.trigger_events(
            &[TriggerEvent::PaddingSent {
                bytes_sent: mtu,
                machine: MachineId::from_raw(0),
            }],
            current_time,
        );
    }

    // padding accounting correct
    assert_eq!(f.runtime(0).unwrap().padding_sent, (mtu as u64) * 4);
    assert_eq!(f.runtime(0).unwrap().nonpadding_sent, 100);

    // limit should be reached after 4 padding, blocking next action
    assert_eq!(f.action(0), None);
    assert_eq!(f.runtime(0).unwrap().state_limit, 0);
}

#[test]
fn new_rejects_limits_and_machines() {
    let s0 = state_to(&[Event::PaddingSent], 0);
    let good = machine(0, 0.5, 0, 0.5, vec![s0.clone()], true);
    let now = Instant::from_micros(3);
    assert!(framework(vec![good.clone()], 1.0, 1.0, now).is_ok());
    assert_eq!(
        framework(vec![good.clone()], 1.1, 0.0, now).err(),
        Some(Error::PaddingLimit)
    );
    assert_eq!(
        framework(vec![good.clone()], -0.1, 0.0, now).err(),
        Some(Error::PaddingLimit)
    );
    assert_eq!(
        framework(vec![good.clone()], 0.0, 1.5, now).err(),
        Some(Error::BlockingLimit)
    );
    let bad = machine(0, 0.5, 0, 0.5, vec![], true);
    assert_eq!(
        framework(vec![good.clone(), bad], 2.0, 2.0, now).err(),
        Some(Error::Machine(MachineFault::NoStates))
    );
    let bad = machine(0, 0.5, 0, 7.0, vec![s0], true);
    assert_eq!(
        framework(vec![good, bad], 0.0, 0.0, now).err(),
        Some(Error::BlockingLimit)
    );
}

#[test]
fn new_starts_every_machine_in_its_first_state() {
    let mut s0 = state_to(&[Event::PaddingSent], 0);
    s0.action = Some(Action::SendPadding {
        bypass: false,
        replace: false,
        timeout: uniform(1.0, 1.0),
        limit: Some(uniform(3.0, 3.0)),
    });
    let s1 = state_to(&[Event::PaddingSent], 0);
    let a = machine(0, 0.0, 0, 0.0, vec![s0], true);
    let b = machine(0, 0.0, 0, 0.0, vec![s1], true);
    let now = Instant::from_micros(42);
    let f = framework(vec![a, b], 0.0, 0.0, now).unwrap();
    assert_eq!(f.num_machines(), 2);
    let r0 = f.runtime(0).unwrap();
    assert_eq!(r0.current_state, 0);
    assert_eq!(r0.state_limit, 3);
    assert_eq!(r0.padding_sent, 0);
    assert_eq!(r0.nonpadding_sent, 0);
    assert_eq!(r0.blocking_duration, Duration::from_micros(0));
    assert_eq!(r0.machine_start, now);
    assert_eq!(f.runtime(1).unwrap().state_limit, STATE_LIMIT_MAX);
    assert_eq!(f.runtime(2), None);
    assert_eq!(f.action(0), None);
    assert_eq!(f.action(5), None);
    assert_eq!(f.mtu(), 0);
}

#[test]
fn at_most_one_action_per_machine() {
    let mut s0 = state_to(&[Event::NormalRecv, Event::NormalSent], 0);
    s0.action = padding(3.0);
    let idle = state_to(&[Event::TunnelRecv], 0);
    let a = machine(1_000_000, 0.0, 0, 0.0, vec![s0.clone()], true);
    let b = machine(1_000_000, 0.0, 0, 0.0, vec![idle], true);
    let c = machine(1_000_000, 0.0, 0, 0.0, vec![s0], true);
    let now = Instant::from_micros(0);
    let mut f = framework(vec![a, b, c], 0.0, 0.0, now).unwrap();
    let out = f.trigger_events(
        &[
            TriggerEvent::NormalRecv { bytes_recv: 100 },
            TriggerEvent::NormalSent { bytes_sent: 100 },
            TriggerEvent::NormalRecv { bytes_recv: 100 },
        ],
        now,
    );
    assert_eq!(
        out,
        vec![send_padding(3, 0).unwrap(), send_padding(3, 2).unwrap()]
    );
    assert!(out.len() <= f.num_machines());
    let out = f.trigger_events(&[], now);
    assert_eq!(out, vec![]);
    assert_eq!(f.action(0), None);
}

#[test]
fn end_state_is_final() {
    // state 0 ends the machine on NormalRecv and pads on PaddingRecv
    let mut s0 = State::new(vec![
        (Event::NormalRecv, vec![Trans(STATE_END, fx(1.0))]),
        (Event::PaddingRecv, vec![Trans(0, fx(1.0))]),
    ]);
    s0.action = padding(5.0);
    let m = machine(1_000_000, 0.0, 0, 0.0, vec![s0], true);
    let now = Instant::from_micros(0);
    let mut f = framework(vec![m], 0.0, 0.0, now).unwrap();

    let out = f.trigger_events(&[TriggerEvent::PaddingRecv { bytes_recv: 0 }], now);
    assert_eq!(out, vec![send_padding(5, 0).unwrap()]);

    // the pending action of the same batch survives the end
    let out = f.trigger_events(
        &[
            TriggerEvent::PaddingRecv { bytes_recv: 0 },
            TriggerEvent::NormalRecv { bytes_recv: 0 },
        ],
        now,
    );
    assert_eq!(out, vec![send_padding(5, 0).unwrap()]);
    assert_eq!(f.runtime(0).unwrap().current_state, STATE_END);

    // nothing happens after the end
    for _ in 0..3 {
        let out = f.trigger_events(
            &[
                TriggerEvent::PaddingRecv { bytes_recv: 0 },
                TriggerEvent::NormalRecv { bytes_recv: 0 },
                TriggerEvent::PaddingSent {
                    bytes_sent: 10,
                    machine: MachineId::from_raw(0),
                },
                TriggerEvent::LimitReached {
                    machine: MachineId::from_raw(0),
                },
            ],
            now,
        );
        assert_eq!(out, vec![]);
        assert_eq!(f.runtime(0).unwrap().current_state, STATE_END);
    }
}

#[test]
fn cancel_state_emits_cancel_without_state_change() {
    let mut s0 = State::new(vec![
        (Event::NormalRecv, vec![Trans(STATE_CANCEL, fx(1.0))]),
        (Event::PaddingRecv, vec![Trans(1, fx(1.0))]),
    ]);
    s0.action = padding(5.0);
    let s1 = state_to(&[Event::NormalRecv], STATE_CANCEL);
    let m = machine(1_000_000, 0.0, 0, 0.0, vec![s0, s1], true);
    let now = Instant::from_micros(0);
    let mut f = framework(vec![m], 0.0, 0.0, now).unwrap();
    let out = f.trigger_events(&[TriggerEvent::NormalRecv { bytes_recv: 0 }], now);
    assert_eq!(
        out,
        vec![TriggerAction::Cancel {
            machine: MachineId::from_raw(0),
            timer: Timer::Action
        }]
    );
    assert_eq!(f.runtime(0).unwrap().current_state, 0);
    let out = f.trigger_events(
        &[
            TriggerEvent::PaddingRecv { bytes_recv: 0 },
            TriggerEvent::NormalRecv { bytes_recv: 0 },
        ],
        now,
    );
    assert_eq!(f.runtime(0).unwrap().current_state, 1);
    assert_eq!(out.len(), 1);
}

#[test]
fn small_packets_are_ignored_when_excluded() {
    let s0 = state_to(&[Event::NormalRecv], 1);
    let mut s1 = state_to(&[Event::NormalRecv], 1);
    s1.action = padding(2.0);
    let m = machine(1_000_000, 0.0, 0, 0.0, vec![s0, s1], false);
    let now = Instant::from_micros(0);
    let mut f = framework(vec![m], 0.0, 0.0, now).unwrap();
    // 52 bytes is small, 53 is not, 0 is no packet size at all
    let out = f.trigger_events(&[TriggerEvent::NormalRecv { bytes_recv: 52 }], now);
    assert_eq!(out, vec![]);
    assert_eq!(f.runtime(0).unwrap().current_state, 0);
    let out = f.trigger_events(&[TriggerEvent::NormalRecv { bytes_recv: 1 }], now);
    assert_eq!(out, vec![]);
    let out = f.trigger_events(&[TriggerEvent::NormalRecv { bytes_recv: 53 }], now);
    assert_eq!(out, vec![send_padding(2, 0).unwrap()]);
    assert_eq!(f.runtime(0).unwrap().current_state, 1);
    let out = f.trigger_events(&[TriggerEvent::NormalRecv { bytes_recv: 0 }], now);
    assert_eq!(out, vec![send_padding(2, 0).unwrap()]);
}

#[test]
fn update_mtu_is_kept_and_drives_transitions() {
    let s0 = state_to(&[Event::UpdateMTU], 1);
    let mut s1 = state_to(&[Event::UpdateMTU], 1);
    s1.action = Some(Action::UpdateTimer {
        replace: true,
        duration: uniform(9.0, 9.0),
        limit: None,
    });
    let m = machine(0, 0.0, 0, 0.0, vec![s0, s1], true);
    let now = Instant::from_micros(0);
    let mut f = framework(vec![m], 0.0, 0.0, now).unwrap();
    let out = f.trigger_events(&[TriggerEvent::UpdateMTU { new_mtu: 1420 }], now);
    assert_eq!(f.mtu(), 1420);
    assert_eq!(
        out,
        vec![TriggerAction::UpdateTimer {
            duration: Duration::from_micros(9),
            replace: true,
            machine: MachineId::from_raw(0)
        }]
    );
}

#[test]
fn flags_pass_through_to_the_action() {
    let mut s0 = state_to(&[Event::TunnelSent], 0);
    s0.action = Some(Action::BlockOutgoing {
        bypass: true,
        replace: true,
        timeout: uniform(4.0, 4.0),
        duration: uniform(6.0, 6.0),
        limit: None,
    });
    let mut s1 = state_to(&[Event::TunnelSent], 0);
    s1.action = Some(Action::SendPadding {
        bypass: true,
        replace: false,
        timeout: uniform(4.0, 4.0),
        limit: None,
    });
    let a = machine(100, 0.0, 100, 0.0, vec![s0], true);
    let b = machine(100, 0.0, 100, 0.0, vec![s1], true);
    let now = Instant::from_micros(0);
    let mut f = framework(vec![a, b], 0.0, 0.0, now).unwrap();
    let out = f.trigger_events(&[TriggerEvent::TunnelSent], now);
    assert_eq!(
        out,
        vec![
            TriggerAction::BlockOutgoing {
                timeout: Duration::from_micros(4),
                duration: Duration::from_micros(6),
                bypass: true,
                replace: true,
                machine: MachineId::from_raw(0)
            },
            TriggerAction::SendPadding {
                timeout: Duration::from_micros(4),
                bypass: true,
                replace: false,
                machine: MachineId::from_raw(1)
            }
        ]
    );
}

#[test]
fn global_counters_never_decrease() {
    let mut s0 = state_to(&[Event::PaddingSent, Event::BlockingEnd], 0);
    s0.action = padding(1.0);
    let m = machine(10, 0.5, 0, 0.5, vec![s0], true);
    let mut now = Instant::from_micros(0);
    let mut f = framework(vec![m], 0.5, 0.5, now).unwrap();
    let mut padding_seen = 0;
    let mut blocked_seen = Duration::from_micros(0);
    for i in 0..20u16 {
        now = later(now, 3);
        _ = f.trigger_events(
            &[
                TriggerEvent::BlockingBegin {
                    machine: MachineId::from_raw(0),
                },
                TriggerEvent::PaddingSent {
                    bytes_sent: i,
                    machine: MachineId::from_raw(0),
                },
            ],
            now,
        );
        now = later(now, 2);
        _ = f.trigger_events(&[TriggerEvent::BlockingEnd], now);
        assert!(f.padding_sent_bytes() >= padding_seen);
        assert!(f.blocking_duration() >= blocked_seen);
        padding_seen = f.padding_sent_bytes();
        blocked_seen = f.blocking_duration();
        let rt = f.runtime(0).unwrap();
        assert_eq!(rt.padding_sent, padding_seen);
        assert_eq!(rt.blocking_duration, blocked_seen);
    }
    assert_eq!(padding_seen, 190);
    assert_eq!(blocked_seen, Duration::from_micros(40));
    assert_eq!(f.nonpadding_sent_bytes(), 0);
}

/// Draws a value between the ends of a uniform range with the generator.
struct Spread;

impl Sampler for Spread {
    fn draw(&mut self, dist: &DistType, rng: &mut StdRng) -> Fixed {
        match dist {
            DistType::Uniform { low, high } => {
                Fixed::from_millionths(rng.gen_range(low.as_millionths()..=high.as_millionths()))
            }
            DistType::Normal { mean, .. } => *mean,
            DistType::LogNormal { mu, .. } => *mu,
            DistType::Poisson { lambda } => *lambda,
        }
    }
}

#[test]
fn invariants_hold_on_random_runs() {
    // three states with split probabilities, a cancel and an end
    let mut s0 = State::new(vec![
        (
            Event::NormalSent,
            vec![Trans(1, fx(0.4)), Trans(0, fx(0.3)), Trans(STATE_CANCEL, fx(0.1))],
        ),
        (Event::PaddingSent, vec![Trans(2, fx(0.5)), Trans(0, fx(0.5))]),
        (Event::BlockingEnd, vec![Trans(1, fx(0.7))]),
    ]);
    s0.action = Some(Action::SendPadding {
        bypass: false,
        replace: false,
        timeout: uniform(0.0, 50.0),
        limit: Some(uniform(1.0, 6.0)),
    });
    s0.limit_includes_nonpadding = true;
    let mut s1 = State::new(vec![
        (Event::NormalRecv, vec![Trans(0, fx(0.5)), Trans(2, fx(0.5))]),
        (Event::LimitReached, vec![Trans(2, fx(1.0))]),
        (Event::BlockingBegin, vec![Trans(1, fx(0.9))]),
    ]);
    s1.action = Some(Action::BlockOutgoing {
        bypass: true,
        replace: false,
        timeout: uniform(0.0, 5.0),
        duration: uniform(1.0, 9.0),
        limit: Some(uniform(0.0, 3.0)),
    });
    let mut s2 = State::new(vec![
        (Event::NormalSent, vec![Trans(0, fx(0.2)), Trans(STATE_END, fx(0.01))]),
        (Event::TunnelRecv, vec![Trans(1, fx(0.3))]),
    ]);
    s2.action = Some(Action::UpdateTimer {
        replace: false,
        duration: uniform(2.0, 3.0),
        limit: None,
    });
    let states = vec![s0, s1, s2];
    let a = machine(3000, 0.3, 20, 0.4, states.clone(), true);
    let b = machine(0, 0.0, 0, 0.0, states.clone(), false);
    let c = machine(10_000, 1.0, 1000, 1.0, states, true);
    for seed in 0..20u64 {
        let mut now = Instant::from_micros(1000);
        let mut f = Framework::new(
            vec![a.clone(), b.clone(), c.clone()],
            fx(0.5),
            fx(0.5),
            now,
            StdRng::seed_from_u64(seed),
            Spread,
        )
        .unwrap();
        let mut feed = StdRng::seed_from_u64(1000 + seed);
        let mut padding = 0;
        let mut nonpadding = 0;
        let mut blocked = Duration::from_micros(0);
        let mut ended = [false; 3];
        for _ in 0..400 {
            now = later(now, feed.gen_range(0..20));
            let mut batch = vec![];
            for _ in 0..feed.gen_range(0..4) {
                let machine = MachineId::from_raw(feed.gen_range(0..4));
                batch.push(match feed.gen_range(0..9) {
                    0 => TriggerEvent::NormalSent {
                        bytes_sent: feed.gen_range(0..1500),
                    },
                    1 => TriggerEvent::NormalRecv {
                        bytes_recv: feed.gen_range(0..1500),
                    },
                    2 => TriggerEvent::PaddingSent {
                        bytes_sent: feed.gen_range(0..1500),
                        machine,
                    },
                    3 => TriggerEvent::BlockingBegin { machine },
                    4 => TriggerEvent::BlockingEnd,
                    5 => TriggerEvent::TunnelRecv,
                    6 => TriggerEvent::LimitReached { machine },
                    7 => TriggerEvent::TimerEnd { machine },
                    _ => TriggerEvent::UpdateMTU {
                        new_mtu: feed.gen_range(0..1500),
                    },
                });
            }
            let out = f.trigger_events(&batch, now);
            // at most one action for each machine, in the order of the machines
            assert!(out.len() <= f.num_machines());
            let pending: Vec<TriggerAction> = (0..3).filter_map(|mi| f.action(mi)).collect();
            assert_eq!(out, pending);
            // each action is for the machine at whose place it stands
            for mi in 0..3 {
                if let Some(a) = f.action(mi) {
                    assert_eq!(a.machine(), MachineId::from_raw(mi));
                }
            }
            // the counters of the framework never decrease
            assert!(f.padding_sent_bytes() >= padding);
            assert!(f.nonpadding_sent_bytes() >= nonpadding);
            assert!(f.blocking_duration() >= blocked);
            padding = f.padding_sent_bytes();
            nonpadding = f.nonpadding_sent_bytes();
            blocked = f.blocking_duration();
            for mi in 0..3 {
                let rt = f.runtime(mi).unwrap();
                // each machine is in one of its states or at its end
                assert!(rt.current_state < 3 || rt.current_state == STATE_END);
                // a machine at its end stays there and asks for nothing
                if ended[mi] {
                    assert_eq!(rt.current_state, STATE_END);
                    assert_eq!(f.action(mi), None);
                }
                ended[mi] = rt.current_state == STATE_END;
                // nothing is asked for where the limit of the state is used up
                if rt.state_limit == 0 {
                    assert!(!f.below_action_limits(mi));
                }
            }
        }
    }
}

#[test]
fn no_action_with_exhausted_limit() {
    let mut s0 = state_to(&[Event::NormalRecv], 0);
    s0.action = Some(Action::SendPadding {
        bypass: false,
        replace: false,
        timeout: uniform(1.0, 1.0),
        limit: Some(uniform(0.0, 0.0)),
    });
    let m = machine(1_000_000, 0.0, 0, 0.0, vec![s0], true);
    let now = Instant::from_micros(0);
    let mut f = framework(vec![m], 0.0, 0.0, now).unwrap();
    assert_eq!(f.runtime(0).unwrap().state_limit, 0);
    assert!(!f.below_action_limits(0));
    let out = f.trigger_events(&[TriggerEvent::NormalRecv { bytes_recv: 0 }], now);
    assert_eq!(out, vec![]);
    assert!(!f.below_action_limits(9));
}

#[test]
fn replacing_block_bypasses_fraction_when_not_blocking() {
    let s0 = state_to(&[Event::NormalRecv], 1);
    let mut s1 = state_to(
        &[Event::NormalRecv, Event::BlockingBegin, Event::BlockingEnd],
        1,
    );
    s1.action = Some(Action::BlockOutgoing {
        bypass: false,
        replace: true,
        timeout: uniform(1.0, 1.0),
        duration: uniform(1.0, 1.0),
        limit: None,
    });
    // no allowed blocking, and at most half of the time may be blocked
    let m = machine(0, 0.0, 0, 0.5, vec![s0, s1], true);
    let mut now = Instant::from_micros(0);
    let mut f = framework(vec![m], 0.0, 0.0, now).unwrap();
    let begin = TriggerEvent::BlockingBegin {
        machine: MachineId::from_raw(0),
    };
    // no blocking goes on: a replacing block is held to the state limit only
    let out = f.trigger_events(&[TriggerEvent::NormalRecv { bytes_recv: 0 }], now);
    assert_eq!(out.len(), 1);
    // blocking goes on, but no time has passed and none was blocked: the
    // fraction does not stand in the way
    let out = f.trigger_events(&[begin], now);
    assert_eq!(out.len(), 1);
    // blocking goes on and all of the time was blocked
    now = later(now, 10);
    let out = f.trigger_events(&[TriggerEvent::NormalRecv { bytes_recv: 0 }], now);
    assert_eq!(out, vec![]);
    // at its end no blocking goes on: the fraction does not count
    let out = f.trigger_events(&[TriggerEvent::BlockingEnd], now);
    assert_eq!(out.len(), 1);
    assert_eq!(
        f.runtime(0).unwrap().blocking_duration,
        Duration::from_micros(10)
    );
    // blocking goes on again: 10 of 12 microseconds were blocked
    now = later(now, 2);
    let out = f.trigger_events(&[begin], now);
    assert_eq!(out, vec![]);
}

#[test]
fn trigger_event_kinds() {
    let m = MachineId::from_raw(3);
    assert_eq!(m.into_raw(), 3);
    let all = [
        (TriggerEvent::NormalRecv { bytes_recv: 1 }, Event::NormalRecv),
        (TriggerEvent::NormalSent { bytes_sent: 1 }, Event::NormalSent),
        (TriggerEvent::PaddingRecv { bytes_recv: 1 }, Event::PaddingRecv),
        (
            TriggerEvent::PaddingSent {
                bytes_sent: 1,
                machine: m,
            },
            Event::PaddingSent,
        ),
        (TriggerEvent::TunnelRecv, Event::TunnelRecv),
        (TriggerEvent::TunnelSent, Event::TunnelSent),
        (TriggerEvent::BlockingBegin { machine: m }, Event::BlockingBegin),
        (TriggerEvent::BlockingEnd, Event::BlockingEnd),
        (TriggerEvent::LimitReached { machine: m }, Event::LimitReached),
        (TriggerEvent::CounterZero { machine: m }, Event::CounterZero),
        (TriggerEvent::TimerBegin { machine: m }, Event::TimerBegin),
        (TriggerEvent::TimerEnd { machine: m }, Event::TimerEnd),
        (TriggerEvent::UpdateMTU { new_mtu: 1 }, Event::UpdateMTU),
    ];
    for (i, (t, e)) in all.iter().enumerate() {
        assert!(t.is_event(*e));
        assert_eq!(t.to_event(), *e);
        for (j, (_, other)) in all.iter().enumerate() {
            assert_eq!(t.is_event(*other), i == j);
        }
    }
}

#[test]
fn blocking_fraction_at_the_start() {
    // a machine without allowed blocking and with a fraction
    let mut s0 = state_to(&[Event::NormalRecv, Event::BlockingEnd], 0);
    s0.action = blocking(1.0, 1.0);
    let m = machine(0, 0.0, 0, 0.5, vec![s0.clone()], true);
    let g = machine(0, 0.0, 0, 0.0, vec![s0], true);
    let start = Instant::from_micros(77);
    let recv = [TriggerEvent::NormalRecv { bytes_recv: 0 }];
    let begin = [TriggerEvent::BlockingBegin {
        machine: MachineId::from_raw(0),
    }];
    for (machines, framework_frac) in [(vec![m], 0.0), (vec![g], 0.5)] {
        let mut f = framework(machines, 0.0, framework_frac, start).unwrap();
        // no time has passed and none was blocked: blocking may be asked for
        assert_eq!(f.trigger_events(&recv, start), vec![block_outgoing(1, 1, 0).unwrap()]);
        // one microsecond later nothing of the time was blocked
        assert_eq!(f.trigger_events(&recv, later(start, 1)).len(), 1);
        // blocking for 4 of 5 microseconds is more than half
        f.trigger_events(&begin, later(start, 1));
        assert_eq!(f.trigger_events(&[TriggerEvent::BlockingEnd], later(start, 5)), vec![]);
        assert_eq!(f.blocking_duration(), Duration::from_micros(4));
        // 4 of 8 is half, which is not below half; 4 of 9 is
        assert_eq!(f.trigger_events(&recv, later(start, 8)), vec![]);
        assert_eq!(f.trigger_events(&recv, later(start, 9)).len(), 1);
    }
}

#[test]
fn blocked_time_with_no_time_passed_is_too_much() {
    let mut s0 = state_to(&[Event::NormalRecv], 0);
    s0.action = blocking(1.0, 1.0);
    let m = machine(0, 0.0, 0, 0.5, vec![s0], true);
    let start = Instant::from_micros(50);
    let mut f = framework(vec![m], 0.0, 0.0, start).unwrap();
    let begin = [TriggerEvent::BlockingBegin {
        machine: MachineId::from_raw(0),
    }];
    let recv = [TriggerEvent::NormalRecv { bytes_recv: 0 }];
    f.trigger_events(&begin, start);
    f.trigger_events(&[TriggerEvent::BlockingEnd], later(start, 5));
    assert_eq!(f.runtime(0).unwrap().blocking_duration, Duration::from_micros(5));
    // 5 of 11 microseconds is below half
    assert_eq!(f.trigger_events(&recv, later(start, 11)).len(), 1);
    // with the time of the start handed in again no time has passed, and
    // time was blocked
    assert_eq!(f.trigger_events(&recv, start), vec![]);
}

#[test]
fn a_machine_with_its_own_fraction_is_held_to_that_one() {
    let mut s0 = state_to(
        &[Event::NormalRecv, Event::PaddingSent, Event::NormalSent],
        0,
    );
    s0.action = padding(3.0);
    let now = Instant::from_micros(0);
    let sent = [
        TriggerEvent::PaddingSent {
            bytes_sent: 100,
            machine: MachineId::from_raw(0),
        },
        TriggerEvent::NormalSent { bytes_sent: 100 },
    ];
    let recv = [TriggerEvent::NormalRecv { bytes_recv: 0 }];

    // half of the bytes are padding: below the machine's 0.9, though the
    // framework's 0.5 is reached
    let m = machine(0, 0.9, 0, 0.0, vec![s0.clone()], true);
    let mut f = framework(vec![m], 0.5, 0.0, now).unwrap();
    f.trigger_events(&sent, now);
    assert_eq!(f.padding_sent_bytes(), 100);
    assert_eq!(f.nonpadding_sent_bytes(), 100);
    assert_eq!(f.trigger_events(&recv, now), vec![send_padding(3, 0).unwrap()]);

    // without a fraction of its own the machine is held to the framework's
    let m = machine(0, 0.0, 0, 0.0, vec![s0.clone()], true);
    let mut f = framework(vec![m], 0.5, 0.0, now).unwrap();
    f.trigger_events(&sent, now);
    assert_eq!(f.trigger_events(&recv, now), vec![]);

    // its own fraction reached, the framework's not
    let m = machine(0, 0.5, 0, 0.0, vec![s0.clone()], true);
    let mut f = framework(vec![m], 0.9, 0.0, now).unwrap();
    f.trigger_events(&sent, now);
    assert_eq!(f.trigger_events(&recv, now), vec![]);

    // neither has a fraction
    let m = machine(0, 0.0, 0, 0.0, vec![s0], true);
    let mut f = framework(vec![m], 0.0, 0.0, now).unwrap();
    f.trigger_events(&sent, now);
    assert_eq!(f.trigger_events(&recv, now), vec![send_padding(3, 0).unwrap()]);
}

#[test]
fn a_machine_with_its_own_blocking_fraction_is_held_to_that_one() {
    let mut s0 = state_to(&[Event::NormalRecv], 0);
    s0.action = blocking(1.0, 1.0);
    let start = Instant::from_micros(0);
    let begin = [TriggerEvent::BlockingBegin {
        machine: MachineId::from_raw(0),
    }];
    let recv = [TriggerEvent::NormalRecv { bytes_recv: 0 }];
    // (fraction of the machine, of the framework, whether blocking may be
    // asked for when 5 of 10 microseconds were blocked)
    for (mf, ff, may) in [
        (0.9, 0.5, true),
        (0.0, 0.5, false),
        (0.5, 0.9, false),
        (0.0, 0.0, true),
    ] {
        let m = machine(0, 0.0, 0, mf, vec![s0.clone()], true);
        let mut f = framework(vec![m], 0.0, ff, start).unwrap();
        f.trigger_events(&begin, start);
        f.trigger_events(&[TriggerEvent::BlockingEnd], later(start, 5));
        assert_eq!(f.blocking_duration(), Duration::from_micros(5));
        let out = f.trigger_events(&recv, later(start, 10));
        assert_eq!(out.len(), if may { 1 } else { 0 }, "{} {}", mf, ff);
    }
}
