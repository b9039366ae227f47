//! A rendering of machines as text, byte for byte the same wherever it is
//! made. Numbers are written in decimal, fixed-point numbers as their
//! millionths; the transitions of a state are written event by event in
//! the declared order of the events.
//!
//! Each function here says what a text is once something is written after
//! it.

use vstd::prelude::*;
use crate::action::{Action, Timer};
use crate::constants::EVENT_NUM;
use crate::dist::{Dist, DistType};
use crate::fixed::Fixed;
use crate::framework::TriggerEvent;
use crate::machine::Machine;
use crate::state::{Counter, CounterUpdate, Operation, State, Trans};

verus! {

/// The text with the number `n` after it, in decimal digits.
pub open spec fn with_decimal(text: Seq<u8>, n: nat) -> Seq<u8>
    decreases n,
{
    if n < 10 {
        text.push((48 + n) as u8)
    } else {
        with_decimal(text, n / 10).push((48 + n % 10) as u8)
    }
}

/// The text with the number `x` after it: a minus sign if it is less than
/// zero, then its size in decimal digits.
pub open spec fn with_signed(text: Seq<u8>, x: int) -> Seq<u8> {
    if x < 0 {
        with_decimal(text.push(45), (-x) as nat)
    } else {
        with_decimal(text, x as nat)
    }
}

/// The text with `y` after it for true, `n` for false.
pub open spec fn with_flag(text: Seq<u8>, flag: bool) -> Seq<u8> {
    text.push(
        if flag {
            121
        } else {
            110
        },
    )
}

/// The text with a distribution after it: the letter of its family, its
/// parameters with commas between them, and after semicolons `start` and
/// `max`.
pub open spec fn with_dist(text: Seq<u8>, d: Dist) -> Seq<u8> {
    let family = match d.dist {
        DistType::Uniform { low, high } => with_signed(
            with_signed(text.push(85), low.millionths as int).push(44),
            high.millionths as int,
        ),
        DistType::Normal { mean, stdev } => with_signed(
            with_signed(text.push(78), mean.millionths as int).push(44),
            stdev.millionths as int,
        ),
        DistType::LogNormal { mu, sigma } => with_signed(
            with_signed(text.push(76), mu.millionths as int).push(44),
            sigma.millionths as int,
        ),
        DistType::Poisson { lambda } => with_signed(text.push(79), lambda.millionths as int),
    };
    with_signed(
        with_signed(family.push(59), d.start.millionths as int).push(59),
        d.max.millionths as int,
    )
}

/// The text with an optional distribution after it: a space and the
/// distribution, or a space and a minus sign.
pub open spec fn with_optional_dist(text: Seq<u8>, d: Option<Dist>) -> Seq<u8> {
    match d {
        Some(d) => with_dist(text.push(32), d),
        None => text.push(32).push(45),
    }
}

/// The text with an optional action after it: a minus sign for none; else
/// the letter of the action, its flags, and its distributions, each after
/// a space.
pub open spec fn with_action(text: Seq<u8>, a: Option<Action>) -> Seq<u8> {
    match a {
        None => text.push(45),
        Some(Action::Cancel { timer }) => text.push(67).push(
            match timer {
                Timer::Action => 48,
                Timer::Machine => 49,
                Timer::All => 50,
            },
        ),
        Some(Action::SendPadding { bypass, replace, timeout, limit }) => with_optional_dist(
            with_dist(with_flag(with_flag(text.push(80), bypass), replace).push(32), timeout),
            limit,
        ),
        Some(
            Action::BlockOutgoing { bypass, replace, timeout, duration, limit },
        ) => with_optional_dist(
            with_dist(
                with_dist(
                    with_flag(with_flag(text.push(66), bypass), replace).push(32),
                    timeout,
                ).push(32),
                duration,
            ),
            limit,
        ),
        Some(Action::UpdateTimer { replace, duration, limit }) => with_optional_dist(
            with_dist(with_flag(text.push(84), replace).push(32), duration),
            limit,
        ),
    }
}

/// The text with an optional counter update after it: a minus sign for
/// none; else the digit of the counter, the digit of the operation, and
/// the distribution of the value.
pub open spec fn with_counter(text: Seq<u8>, c: Option<CounterUpdate>) -> Seq<u8> {
    match c {
        None => text.push(45),
        Some(c) => with_optional_dist(
            text.push(
                match c.counter {
                    Counter::A => 48,
                    Counter::B => 49,
                },
            ).push(
                match c.operation {
                    Operation::Increment => 48,
                    Operation::Decrement => 49,
                    Operation::Assign => 50,
                },
            ),
            c.value,
        ),
    }
}

/// The text with the first `upto` transitions of a vector after it: for
/// each a space, the target, a colon and the probability.
pub open spec fn with_transitions(text: Seq<u8>, v: Seq<Trans>, upto: int) -> Seq<u8>
    decreases upto,
{
    if upto <= 0 {
        text
    } else {
        with_signed(
            with_decimal(with_transitions(text, v, upto - 1).push(32), v[upto - 1].0 as nat).push(
                58,
            ),
            v[upto - 1].1.millionths as int,
        )
    }
}

/// The text with the transitions of a state on the first `upto` kinds of
/// event after it, in the declared order of the events: for each event
/// that has transitions a line with the letter `E`, the place of the
/// event, and the transitions.
pub open spec fn with_events(text: Seq<u8>, s: State, upto: int) -> Seq<u8>
    decreases upto,
{
    if upto <= 0 {
        text
    } else {
        let before = with_events(text, s, upto - 1);
        let v = s.on_index(upto - 1);
        if v.len() == 0 {
            before
        } else {
            with_transitions(with_decimal(before.push(69), (upto - 1) as nat), v, v.len() as int).push(
                10,
            )
        }
    }
}

/// The text with a state after it: a line with the letter `S`, whether
/// the limit counts non-padding, the action and the counter update; then
/// the lines of its transitions.
pub open spec fn with_state(text: Seq<u8>, s: State) -> Seq<u8> {
    with_events(
        with_counter(
            with_action(with_flag(text.push(83), s.limit_includes_nonpadding).push(32), s.action).push(
                32,
            ),
            s.counter,
        ).push(10),
        s,
        EVENT_NUM as int,
    )
}

/// The text with the first `upto` states of a machine after it.
pub open spec fn with_states(text: Seq<u8>, states: Seq<State>, upto: int) -> Seq<u8>
    decreases upto,
{
    if upto <= 0 {
        text
    } else {
        with_state(with_states(text, states, upto - 1), states[upto - 1])
    }
}

/// The rendering of a machine: a line with the letter `M`, the allowed
/// padding bytes, the fraction of padding, the allowed microseconds of
/// blocking, the fraction of blocking and whether small packets count;
/// then its states in their order.
pub open spec fn machine_text(m: Machine) -> Seq<u8> {
    with_states(
        with_flag(
            with_signed(
                with_decimal(
                    with_signed(
                        with_decimal(seq![77u8, 32u8], m.allowed_padding_bytes as nat).push(32),
                        m.max_padding_frac.millionths as int,
                    ).push(32),
                    m.allowed_blocked_microsec as nat,
                ).push(32),
                m.max_blocking_frac.millionths as int,
            ).push(32),
            m.include_small_packets,
        ).push(10),
        m.states@,
        m.states@.len() as int,
    )
}

/// Writes a number in decimal digits.
pub fn push_decimal(out: &mut Vec<u8>, n: u64)
    ensures
        final(out)@ == with_decimal(old(out)@, n as nat),
    decreases n,
{
    if n >= 10 {
        push_decimal(out, n / 10);
    }
    out.push(48 + (n % 10) as u8);
}

/// Writes a number with its sign.
pub fn push_signed(out: &mut Vec<u8>, x: i64)
    ensures
        final(out)@ == with_signed(old(out)@, x as int),
{
    if x < 0 {
        out.push(45);
        let size: i128 = -(x as i128);
        push_decimal(out, size as u64);
    } else {
        push_decimal(out, x as u64);
    }
}

fn push_flag(out: &mut Vec<u8>, flag: bool)
    ensures
        final(out)@ == with_flag(old(out)@, flag),
{
    out.push(
        if flag {
            121
        } else {
            110
        },
    );
}

fn push_fixed(out: &mut Vec<u8>, x: Fixed)
    ensures
        final(out)@ == with_signed(old(out)@, x.millionths as int),
{
    push_signed(out, x.millionths);
}

fn push_dist(out: &mut Vec<u8>, d: &Dist)
    ensures
        final(out)@ == with_dist(old(out)@, *d),
{
    match d.dist {
        DistType::Uniform { low, high } => {
            out.push(85);
            push_fixed(out, low);
            out.push(44);
            push_fixed(out, high);
        },
        DistType::Normal { mean, stdev } => {
            out.push(78);
            push_fixed(out, mean);
            out.push(44);
            push_fixed(out, stdev);
        },
        DistType::LogNormal { mu, sigma } => {
            out.push(76);
            push_fixed(out, mu);
            out.push(44);
            push_fixed(out, sigma);
        },
        DistType::Poisson { lambda } => {
            out.push(79);
            push_fixed(out, lambda);
        },
    }
    out.push(59);
    push_fixed(out, d.start);
    out.push(59);
    push_fixed(out, d.max);
}

fn push_optional_dist(out: &mut Vec<u8>, d: &Option<Dist>)
    ensures
        final(out)@ == with_optional_dist(old(out)@, *d),
{
    out.push(32);
    match d {
        Some(d) => {
            push_dist(out, d);
        },
        None => {
            out.push(45);
        },
    }
}

fn push_action(out: &mut Vec<u8>, a: &Option<Action>)
    ensures
        final(out)@ == with_action(old(out)@, *a),
{
    match a {
        None => {
            out.push(45);
        },
        Some(Action::Cancel { timer }) => {
            out.push(67);
            out.push(
                match timer {
                    Timer::Action => 48,
                    Timer::Machine => 49,
                    Timer::All => 50,
                },
            );
        },
        Some(Action::SendPadding { bypass, replace, timeout, limit }) => {
            out.push(80);
            push_flag(out, *bypass);
            push_flag(out, *replace);
            out.push(32);
            push_dist(out, timeout);
            push_optional_dist(out, limit);
        },
        Some(Action::BlockOutgoing { bypass, replace, timeout, duration, limit }) => {
            out.push(66);
            push_flag(out, *bypass);
            push_flag(out, *replace);
            out.push(32);
            push_dist(out, timeout);
            out.push(32);
            push_dist(out, duration);
            push_optional_dist(out, limit);
        },
        Some(Action::UpdateTimer { replace, duration, limit }) => {
            out.push(84);
            push_flag(out, *replace);
            out.push(32);
            push_dist(out, duration);
            push_optional_dist(out, limit);
        },
    }
}

fn push_counter(out: &mut Vec<u8>, c: &Option<CounterUpdate>)
    ensures
        final(out)@ == with_counter(old(out)@, *c),
{
    match c {
        None => {
            out.push(45);
        },
        Some(c) => {
            out.push(
                match c.counter {
                    Counter::A => 48,
                    Counter::B => 49,
                },
            );
            out.push(
                match c.operation {
                    Operation::Increment => 48,
                    Operation::Decrement => 49,
                    Operation::Assign => 50,
                },
            );
            push_optional_dist(out, &c.value);
        },
    }
}

fn push_transitions(out: &mut Vec<u8>, v: &Vec<Trans>)
    ensures
        final(out)@ == with_transitions(old(out)@, v@, v@.len() as int),
{
    let mut k: usize = 0;
    while k < v.len()
        invariant
            k <= v.len(),
            out@ == with_transitions(old(out)@, v@, k as int),
        decreases v.len() - k,
    {
        out.push(32);
        push_decimal(out, v[k].0 as u64);
        out.push(58);
        push_fixed(out, v[k].1);
        k = k + 1;
    }
}

/// Writes a state.
pub fn push_state(out: &mut Vec<u8>, s: &State)
    ensures
        final(out)@ == with_state(old(out)@, *s),
{
    out.push(83);
    push_flag(out, s.limit_includes_nonpadding);
    out.push(32);
    push_action(out, &s.action);
    out.push(32);
    push_counter(out, &s.counter);
    out.push(10);
    let ghost start = out@;
    let mut k: usize = 0;
    while k < EVENT_NUM
        invariant
            k <= EVENT_NUM,
            out@ == with_events(start, *s, k as int),
        decreases EVENT_NUM - k,
    {
        if k < s.transitions.len() {
            if s.transitions[k].len() > 0 {
                out.push(69);
                push_decimal(out, k as u64);
                push_transitions(out, &s.transitions[k]);
                out.push(10);
            }
        }
        k = k + 1;
    }
}

/// The rendering of a machine as text.
pub fn render_machine(m: &Machine) -> (r: Vec<u8>)
    ensures
        r@ == machine_text(*m),
{
    let mut out: Vec<u8> = Vec::new();
    out.push(77);
    out.push(32);
    assert(out@ =~= seq![77u8, 32u8]);
    push_decimal(&mut out, m.allowed_padding_bytes);
    out.push(32);
    push_fixed(&mut out, m.max_padding_frac);
    out.push(32);
    push_decimal(&mut out, m.allowed_blocked_microsec);
    out.push(32);
    push_fixed(&mut out, m.max_blocking_frac);
    out.push(32);
    push_flag(&mut out, m.include_small_packets);
    out.push(10);
    let ghost start = out@;
    let mut k: usize = 0;
    while k < m.states.len()
        invariant
            k <= m.states.len(),
            out@ == with_states(start, m.states@, k as int),
        decreases m.states.len() - k,
    {
        push_state(&mut out, &m.states[k]);
        k = k + 1;
    }
    out
}

/// The text with an event after it: two letters for its kind, for sent
/// or received or begin or end, and after a comma the bytes that the
/// event carries, if it carries any. The machine of an event is not
/// written.
pub open spec fn with_trigger_event(text: Seq<u8>, e: TriggerEvent) -> Seq<u8> {
    match e {
        TriggerEvent::NormalRecv { bytes_recv } => with_decimal(
            text.push(114).push(110).push(44),
            bytes_recv as nat,
        ),
        TriggerEvent::PaddingRecv { bytes_recv } => with_decimal(
            text.push(114).push(112).push(44),
            bytes_recv as nat,
        ),
        TriggerEvent::TunnelRecv => text.push(114).push(116),
        TriggerEvent::NormalSent { bytes_sent } => with_decimal(
            text.push(115).push(110).push(44),
            bytes_sent as nat,
        ),
        TriggerEvent::PaddingSent { bytes_sent, .. } => with_decimal(
            text.push(115).push(112).push(44),
            bytes_sent as nat,
        ),
        TriggerEvent::TunnelSent => text.push(115).push(116),
        TriggerEvent::BlockingBegin { .. } => text.push(98).push(98),
        TriggerEvent::BlockingEnd => text.push(98).push(101),
        TriggerEvent::LimitReached { .. } => text.push(108).push(114),
        TriggerEvent::CounterZero { .. } => text.push(99).push(122),
        TriggerEvent::TimerBegin { .. } => text.push(116).push(98),
        TriggerEvent::TimerEnd { .. } => text.push(116).push(101),
        TriggerEvent::UpdateMTU { new_mtu } => with_decimal(
            text.push(117).push(109).push(44),
            new_mtu as nat,
        ),
    }
}

/// Writes an event.
pub fn push_trigger_event(out: &mut Vec<u8>, e: &TriggerEvent)
    ensures
        final(out)@ == with_trigger_event(old(out)@, *e),
{
    match e {
        TriggerEvent::NormalRecv { bytes_recv } => {
            out.push(114);
            out.push(110);
            out.push(44);
            push_decimal(out, *bytes_recv as u64);
        },
        TriggerEvent::PaddingRecv { bytes_recv } => {
            out.push(114);
            out.push(112);
            out.push(44);
            push_decimal(out, *bytes_recv as u64);
        },
        TriggerEvent::TunnelRecv => {
            out.push(114);
            out.push(116);
        },
        TriggerEvent::NormalSent { bytes_sent } => {
            out.push(115);
            out.push(110);
            out.push(44);
            push_decimal(out, *bytes_sent as u64);
        },
        TriggerEvent::PaddingSent { bytes_sent, .. } => {
            out.push(115);
            out.push(112);
            out.push(44);
            push_decimal(out, *bytes_sent as u64);
        },
        TriggerEvent::TunnelSent => {
            out.push(115);
            out.push(116);
        },
        TriggerEvent::BlockingBegin { .. } => {
            out.push(98);
            out.push(98);
        },
        TriggerEvent::BlockingEnd => {
            out.push(98);
            out.push(101);
        },
        TriggerEvent::LimitReached { .. } => {
            out.push(108);
            out.push(114);
        },
        TriggerEvent::CounterZero { .. } => {
            out.push(99);
            out.push(122);
        },
        TriggerEvent::TimerBegin { .. } => {
            out.push(116);
            out.push(98);
        },
        TriggerEvent::TimerEnd { .. } => {
            out.push(116);
            out.push(101);
        },
        TriggerEvent::UpdateMTU { new_mtu } => {
            out.push(117);
            out.push(109);
            out.push(44);
            push_decimal(out, *new_mtu as u64);
        },
    }
}

} // verus!
