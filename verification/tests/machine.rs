use maybenot::action::Action;
use maybenot::constants::{STATE_CANCEL, STATE_END, STATE_MAX};
use maybenot::dist::{Dist, DistType};
use maybenot::error::{Error, MachineFault};
use maybenot::event::Event;
use maybenot::fixed::Fixed;
use maybenot::machine::Machine;
use maybenot::state::{Counter, CounterUpdate, Operation, State, Trans};

fn fx(x: f64) -> Fixed {
    Fixed::from_millionths((x * 1_000_000.0).round() as i64)
}

fn uniform(low: f64, high: f64) -> Dist {
    Dist {
        dist: DistType::Uniform {
            low: fx(low),
            high: fx(high),
        },
        start: fx(0.0),
        max: fx(0.0),
    }
}

/// A state with the given transitions on PaddingSent.
fn on_padding_sent(t: Vec<Trans>) -> State {
    State::new(vec![(Event::PaddingSent, t)])
}

#[test]
fn validate_machine_limits() {
    // state 0
    let s0 = on_padding_sent(vec![Trans(0, fx(1.0))]);

    // machine
    let mut m = Machine::new(1000, fx(1.0), 0, fx(0.0), vec![s0]).unwrap();

    // max padding frac
    m.max_padding_frac = fx(-0.1);
    let r = m.validate();
    println!("{:?}", r.as_ref().err());
    assert!(r.is_err());

    m.max_padding_frac = fx(1.1);
    let r = m.validate();
    println!("{:?}", r.as_ref().err());
    assert!(r.is_err());

    m.max_padding_frac = fx(0.5);
    let r = m.validate();
    assert!(r.is_ok());

    // max blocking frac
    m.max_blocking_frac = fx(-0.1);
    let r = m.validate();
    println!("{:?}", r.as_ref().err());
    assert!(r.is_err());

    m.max_blocking_frac = fx(1.1);
    let r = m.validate();
    println!("{:?}", r.as_ref().err());
    assert!(r.is_err());

    m.max_blocking_frac = fx(0.5);
    let r = m.validate();
    assert!(r.is_ok());
}

#[test]
fn validate_machine_num_states() {
    // invalid machine lacking state
    let r = Machine::new(1000, fx(1.0), 0, fx(0.0), vec![]);

    println!("{:?}", r.as_ref().err());
    assert!(r.is_err());
}

#[test]
fn validate_machine_probability() {
    // out of bounds index
    let s0 = on_padding_sent(vec![Trans(1, fx(1.0))]);

    // machine with broken state
    let r = Machine::new(1000, fx(1.0), 0, fx(0.0), vec![s0.clone()]);
    println!("{:?}", r.as_ref().err());
    assert!(r.is_err());

    // try setting one probability too high
    let s0 = on_padding_sent(vec![Trans(0, fx(1.1))]);

    // machine with broken state
    let r = Machine::new(1000, fx(1.0), 0, fx(0.0), vec![s0.clone()]);
    println!("{:?}", r.as_ref().err());
    assert!(r.is_err());

    // try setting total probability too high

    // state 0
    let s0 = on_padding_sent(vec![Trans(0, fx(0.5)), Trans(1, fx(0.6))]);

    // state 1
    let s1 = State::new(vec![(Event::PaddingRecv, vec![Trans(1, fx(1.0))])]);

    // machine with broken state
    let r = Machine::new(1000, fx(1.0), 0, fx(0.0), vec![s0, s1]);
    println!("{:?}", r.as_ref().err());
    assert!(r.is_err());
}

#[test]
fn validate_machine_distributions() {
    // state 0
    let mut s0 = on_padding_sent(vec![Trans(0, fx(1.0))]);
    s0.action = Some(Action::SendPadding {
        bypass: false,
        replace: false,
        timeout: uniform(10.0, 10.0),
        limit: None,
    });

    // valid machine
    let m = Machine::new(1000, fx(1.0), 0, fx(0.0), vec![s0.clone()]).unwrap();

    let r = m.validate();
    println!("{:?}", r.as_ref().err());
    assert!(r.is_ok());

    // invalid action in state
    s0.action = Some(Action::SendPadding {
        bypass: false,
        replace: false,
        // NOTE low > high
        timeout: uniform(2.0, 1.0),
        limit: None,
    });

    // machine with broken state
    let r = Machine::new(1000, fx(1.0), 0, fx(0.0), vec![s0.clone()]);

    println!("{:?}", r.as_ref().err());
    assert!(r.is_err());
}

#[test]
fn each_fault_has_its_error() {
    let ok = on_padding_sent(vec![Trans(0, fx(1.0))]);
    let new = |states: Vec<State>| Machine::new(0, fx(0.0), 0, fx(0.0), states).err();

    assert_eq!(
        Machine::new(0, fx(1.000001), 0, fx(2.0), vec![]).err(),
        Some(Error::PaddingLimit)
    );
    assert_eq!(
        Machine::new(0, fx(1.0), 0, fx(-0.000001), vec![]).err(),
        Some(Error::BlockingLimit)
    );
    assert_eq!(new(vec![]), Some(Error::Machine(MachineFault::NoStates)));
    assert_eq!(
        new(vec![ok.clone(); STATE_MAX + 1]),
        Some(Error::Machine(MachineFault::TooManyStates))
    );
    assert_eq!(new(vec![ok.clone(); 3]), None);
    assert_eq!(
        new(vec![on_padding_sent(vec![Trans(1, fx(1.0))])]),
        Some(Error::Machine(MachineFault::BadTarget))
    );
    assert_eq!(
        new(vec![on_padding_sent(vec![
            Trans(0, fx(0.25)),
            Trans(STATE_END, fx(0.25)),
            Trans(0, fx(0.25))
        ])]),
        Some(Error::Machine(MachineFault::DuplicateTarget))
    );
    assert_eq!(
        new(vec![on_padding_sent(vec![Trans(0, fx(0.0))])]),
        Some(Error::Machine(MachineFault::BadProbability))
    );
    assert_eq!(
        new(vec![on_padding_sent(vec![Trans(0, fx(-0.5))])]),
        Some(Error::Machine(MachineFault::BadProbability))
    );
    assert_eq!(
        new(vec![on_padding_sent(vec![
            Trans(0, fx(0.5)),
            Trans(STATE_CANCEL, fx(0.500001))
        ])]),
        Some(Error::Machine(MachineFault::BadProbabilitySum))
    );
    assert_eq!(
        new(vec![on_padding_sent(vec![
            Trans(0, fx(0.5)),
            Trans(STATE_CANCEL, fx(0.25)),
            Trans(STATE_END, fx(0.25))
        ])]),
        None
    );
    let mut s = ok.clone();
    s.counter = Some(CounterUpdate {
        counter: Counter::A,
        operation: Operation::Decrement,
        value: Some(uniform(3.0, 2.0)),
    });
    assert_eq!(
        new(vec![s.clone()]),
        Some(Error::Machine(MachineFault::BadDistribution))
    );
    assert_eq!(s.counter.unwrap().validate(), Err(Error::Distribution));
    s.counter = Some(CounterUpdate {
        counter: Counter::B,
        operation: Operation::Assign,
        value: None,
    });
    assert_eq!(new(vec![s]), None);
}

#[test]
fn first_fault_in_reading_order_wins() {
    // the target of the second transition is bad, the sum too: the target
    // is found first
    let s = on_padding_sent(vec![Trans(0, fx(0.9)), Trans(7, fx(0.9))]);
    assert_eq!(
        s.validate(1),
        Err(Error::Machine(MachineFault::BadTarget))
    );
    assert_eq!(s.validate(8), Err(Error::Machine(MachineFault::BadProbabilitySum)));
    // an earlier event comes first
    let s = State::new(vec![
        (Event::UpdateMTU, vec![Trans(9, fx(1.0))]),
        (Event::NormalRecv, vec![Trans(0, fx(2.0))]),
    ]);
    assert_eq!(
        s.validate(1),
        Err(Error::Machine(MachineFault::BadProbability))
    );
    // the second state is at fault
    let good = on_padding_sent(vec![Trans(1, fx(1.0))]);
    let bad = on_padding_sent(vec![Trans(2, fx(1.0))]);
    let m = Machine::new(0, fx(0.0), 0, fx(0.0), vec![good, bad]);
    assert_eq!(m.err(), Some(Error::Machine(MachineFault::BadTarget)));
}

#[test]
fn new_keeps_what_it_is_given() {
    let s0 = on_padding_sent(vec![Trans(1, fx(0.3)), Trans(0, fx(0.7))]);
    let s1 = on_padding_sent(vec![Trans(STATE_END, fx(1.0))]);
    let m = Machine::new(1000, fx(1.0), 17, fx(0.25), vec![s0, s1]).unwrap();
    assert_eq!(m.allowed_padding_bytes, 1000);
    assert_eq!(m.max_padding_frac, fx(1.0));
    assert_eq!(m.allowed_blocked_microsec, 17);
    assert_eq!(m.max_blocking_frac, fx(0.25));
    assert!(m.include_small_packets);
    assert_eq!(m.states.len(), 2);
    assert_eq!(
        m.states[0].transitions_on(Event::PaddingSent),
        Some(&vec![Trans(1, fx(0.3)), Trans(0, fx(0.7))])
    );
}
