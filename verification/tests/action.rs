use maybenot::action::{Action, Timer, TriggerAction};
use maybenot::constants::{MAX_SAMPLED_BLOCK_DURATION, MAX_SAMPLED_TIMEOUT, STATE_LIMIT_MAX};
use maybenot::dist::{Dist, DistType, Sampler};
use maybenot::error::Error;
use maybenot::fixed::Fixed;
use maybenot::framework::MachineId;
use maybenot::time::Duration;
use rand::rngs::StdRng;
use rand::SeedableRng;

fn fx(x: f64) -> Fixed {
    Fixed::from_millionths((x * 1_000_000.0).round() as i64)
}

fn uniform(low: f64, high: f64) -> Dist {
    Dist {
        dist: DistType::Uniform {
            low: fx(low),
            high: fx(high),
        },
        start: fx(0.0),
        max: fx(0.0),
    }
}

fn normal(mean: f64, stdev: f64) -> Dist {
    Dist {
        dist: DistType::Normal {
            mean: fx(mean),
            stdev: fx(stdev),
        },
        start: fx(0.0),
        max: fx(0.0),
    }
}

/// Draws the low end of a uniform range, the mean or the rate otherwise.
struct Fixture;

impl Sampler for Fixture {
    fn draw(&mut self, dist: &DistType, _rng: &mut StdRng) -> Fixed {
        match dist {
            DistType::Uniform { low, .. } => *low,
            DistType::Normal { mean, .. } => *mean,
            DistType::LogNormal { mu, .. } => *mu,
            DistType::Poisson { lambda } => *lambda,
        }
    }
}

#[test]
fn validate_cancel_action() {
    // always valid

    // action timer
    let a = Action::Cancel {
        timer: Timer::Action,
    };

    let r = a.validate();
    assert!(r.is_ok());

    // machine timer
    let a = Action::Cancel {
        timer: Timer::Machine,
    };

    let r = a.validate();
    assert!(r.is_ok());

    // all timers
    let a = Action::Cancel { timer: Timer::All };

    let r = a.validate();
    assert!(r.is_ok());
}

#[test]
fn validate_padding_action() {
    // valid SendPadding action
    let mut a = Action::SendPadding {
        bypass: false,
        replace: false,
        timeout: uniform(10.0, 10.0),
        limit: Some(normal(50.0, 10.0)),
    };

    let r = a.validate();
    assert!(r.is_ok());

    // invalid timeout dist, not allowed
    if let Action::SendPadding { timeout, .. } = &mut a {
        // NOTE low > high
        *timeout = uniform(15.0, 5.0);
    }

    let r = a.validate();
    assert!(r.is_err());

    // repair timeout dist
    if let Action::SendPadding { timeout, .. } = &mut a {
        *timeout = uniform(10.0, 10.0);
    }

    // invalid limit dist, not allowed
    if let Action::SendPadding { limit, .. } = &mut a {
        // NOTE low > high
        *limit = Some(uniform(15.0, 5.0));
    }

    let r = a.validate();
    assert!(r.is_err());
}

#[test]
fn validate_blocking_action() {
    // valid BlockOutgoing action
    let mut a = Action::BlockOutgoing {
        bypass: false,
        replace: false,
        timeout: uniform(10.0, 10.0),
        duration: uniform(10.0, 10.0),
        limit: Some(normal(50.0, 10.0)),
    };

    let r = a.validate();
    assert!(r.is_ok());

    // invalid timeout dist, not allowed
    if let Action::BlockOutgoing { timeout, .. } = &mut a {
        // NOTE low > high
        *timeout = uniform(15.0, 5.0);
    }

    let r = a.validate();
    assert!(r.is_err());

    // repair timeout dist
    if let Action::BlockOutgoing { timeout, .. } = &mut a {
        *timeout = uniform(10.0, 10.0);
    }

    // invalid action dist, not allowed
    if let Action::BlockOutgoing { duration, .. } = &mut a {
        // NOTE low > high
        *duration = uniform(15.0, 5.0);
    }

    let r = a.validate();
    assert!(r.is_err());

    // repair action dist
    if let Action::BlockOutgoing { duration, .. } = &mut a {
        *duration = uniform(10.0, 10.0);
    }

    // invalid limit dist, not allowed
    if let Action::BlockOutgoing { limit, .. } = &mut a {
        // NOTE low > high
        *limit = Some(uniform(15.0, 5.0));
    }

    let r = a.validate();
    assert!(r.is_err());
}

#[test]
fn validate_update_timer_action() {
    // valid UpdateTimer action
    let mut a = Action::UpdateTimer {
        replace: true,
        duration: uniform(10.0, 10.0),
        limit: Some(normal(50.0, 10.0)),
    };

    let r = a.validate();
    assert!(r.is_ok());

    // invalid action dist, not allowed
    if let Action::UpdateTimer { duration, .. } = &mut a {
        // NOTE low > high
        *duration = uniform(15.0, 5.0);
    }

    let r = a.validate();
    assert!(r.is_err());

    // repair action dist
    if let Action::UpdateTimer { duration, .. } = &mut a {
        *duration = uniform(10.0, 10.0);
    }

    // invalid limit dist, not allowed
    if let Action::UpdateTimer { limit, .. } = &mut a {
        // NOTE low > high
        *limit = Some(uniform(15.0, 5.0));
    }

    let r = a.validate();
    assert!(r.is_err());
}

#[test]
fn invalid_action_gives_distribution_error() {
    let a = Action::SendPadding {
        bypass: false,
        replace: false,
        timeout: normal(1.0, -0.5),
        limit: None,
    };
    assert_eq!(a.validate(), Err(Error::Distribution));
    let a = Action::UpdateTimer {
        replace: false,
        duration: Dist {
            dist: DistType::Poisson { lambda: fx(0.0) },
            start: fx(0.0),
            max: fx(0.0),
        },
        limit: None,
    };
    assert_eq!(a.validate(), Err(Error::Distribution));
    let a = Action::UpdateTimer {
        replace: false,
        duration: Dist {
            dist: DistType::LogNormal {
                mu: fx(1.0),
                sigma: fx(-1.0),
            },
            start: fx(0.0),
            max: fx(0.0),
        },
        limit: None,
    };
    assert_eq!(a.validate(), Err(Error::Distribution));
}

#[test]
fn has_limit_only_with_limit_distribution() {
    let with = Action::SendPadding {
        bypass: false,
        replace: false,
        timeout: uniform(1.0, 1.0),
        limit: Some(uniform(4.0, 4.0)),
    };
    let without = Action::BlockOutgoing {
        bypass: true,
        replace: false,
        timeout: uniform(1.0, 1.0),
        duration: uniform(1.0, 1.0),
        limit: None,
    };
    assert!(with.has_limit());
    assert!(!without.has_limit());
    assert!(!Action::Cancel { timer: Timer::All }.has_limit());
}

#[test]
fn sample_limit_rounds_and_defaults() {
    let mut rng = StdRng::seed_from_u64(1);
    let mut s = Fixture;
    let a = Action::SendPadding {
        bypass: false,
        replace: false,
        timeout: uniform(1.0, 1.0),
        limit: Some(uniform(4.4, 4.4)),
    };
    assert_eq!(a.sample_limit(&mut s, &mut rng), 4);
    let a = Action::SendPadding {
        bypass: false,
        replace: false,
        timeout: uniform(1.0, 1.0),
        limit: Some(uniform(4.5, 4.5)),
    };
    assert_eq!(a.sample_limit(&mut s, &mut rng), 5);
    let a = Action::SendPadding {
        bypass: false,
        replace: false,
        timeout: uniform(1.0, 1.0),
        limit: None,
    };
    assert_eq!(a.sample_limit(&mut s, &mut rng), STATE_LIMIT_MAX);
    assert_eq!(
        Action::Cancel { timer: Timer::All }.sample_limit(&mut s, &mut rng),
        STATE_LIMIT_MAX
    );
}

#[test]
fn sample_timeout_and_duration_are_clamped() {
    let mut rng = StdRng::seed_from_u64(1);
    let mut s = Fixture;
    let day = 86_400_000_000.0;
    let a = Action::BlockOutgoing {
        bypass: false,
        replace: false,
        timeout: uniform(2.0 * day, 2.0 * day),
        duration: uniform(3.0 * day, 3.0 * day),
        limit: None,
    };
    assert_eq!(a.sample_timeout(&mut s, &mut rng), Some(MAX_SAMPLED_TIMEOUT));
    assert_eq!(
        a.sample_duration(&mut s, &mut rng),
        Some(MAX_SAMPLED_BLOCK_DURATION)
    );
    let a = Action::SendPadding {
        bypass: false,
        replace: false,
        timeout: uniform(7.9, 7.9),
        limit: None,
    };
    assert_eq!(a.sample_timeout(&mut s, &mut rng), Some(7));
    assert_eq!(a.sample_duration(&mut s, &mut rng), None);
    assert_eq!(
        Action::Cancel { timer: Timer::All }.sample_timeout(&mut s, &mut rng),
        None
    );
}

#[test]
fn dist_shape_adds_start_and_clamps() {
    let d = Dist {
        dist: DistType::Uniform {
            low: fx(1.0),
            high: fx(2.0),
        },
        start: fx(5.0),
        max: fx(6.5),
    };
    assert_eq!(d.shape(fx(1.0)), fx(6.0));
    assert_eq!(d.shape(fx(2.0)), fx(6.5));
    assert_eq!(d.shape(fx(-10.0)), fx(0.0));
    let open = Dist {
        dist: DistType::Uniform {
            low: fx(1.0),
            high: fx(2.0),
        },
        start: fx(0.0),
        max: fx(0.0),
    };
    assert_eq!(open.shape(fx(1234.5)), fx(1234.5));
}

#[test]
fn trigger_actions_name_their_machine() {
    let d = Duration::from_micros(1);
    let all = [
        TriggerAction::Cancel {
            machine: MachineId::from_raw(3),
            timer: Timer::Machine,
        },
        TriggerAction::SendPadding {
            timeout: d,
            bypass: false,
            replace: true,
            machine: MachineId::from_raw(4),
        },
        TriggerAction::BlockOutgoing {
            timeout: d,
            duration: d,
            bypass: true,
            replace: false,
            machine: MachineId::from_raw(5),
        },
        TriggerAction::UpdateTimer {
            duration: d,
            replace: false,
            machine: MachineId::from_raw(6),
        },
    ];
    for (i, a) in all.iter().enumerate() {
        assert_eq!(a.machine().into_raw(), i + 3);
    }
}
