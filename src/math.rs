//! Scalar velocity integration toward a speed cap, and linear braking to rest.
use vstd::prelude::*;
use vstd::arithmetic::div_mod::{lemma_div_by_multiple, lemma_div_is_ordered, lemma_fundamental_div_mod};
use crate::fixed::{div_toward_zero, div_tz, div_up, fmul, in_range, lemma_fmul_bound, lemma_mul_bound, fx_mul, MAX_MAGNITUDE};

verus! {

/// One step toward a terminal value that is zero or positive.
///
/// Undamped integration is kept while it stays at or below `terminal`. A value that
/// is pushed back toward `terminal` by the acceleration (or not pushed at all) stays
/// undamped. A value that starts below zero and would pass `terminal` snaps to it.
/// Otherwise a damping
/// coefficient `k = acceleration / terminal` slows the value by `k * new * dt`,
/// never bringing it below `terminal`.
pub open spec fn approach_up(current: int, acceleration: int, delta_time: int, terminal: int) -> int {
    let new = current + fmul(acceleration, delta_time);
    if new <= terminal {
        new
    } else if acceleration <= 0 {
        new
    } else if current < 0 || terminal == 0 {
        terminal
    } else {
        let damped = new - div_tz(fmul(acceleration, delta_time) * new, terminal);
        if damped > terminal { damped } else { terminal }
    }
}

/// One integration step of `current` under `acceleration`, damped toward `terminal`
/// once it would pass it. A negative terminal mirrors the positive case.
pub open spec fn approach_velocity_spec(current: int, acceleration: int, delta_time: int, terminal: int) -> int {
    if terminal < 0 {
        -approach_up(-current, -acceleration, delta_time, -terminal)
    } else {
        approach_up(current, acceleration, delta_time, terminal)
    }
}

/// The speed lost per step when braking from `max_speed` to rest over `stop_time`,
/// rounded up so that braking never takes longer than `stop_time`.
pub open spec fn braking_step(delta_time: int, max_speed: int, stop_time: int) -> int {
    div_up(max_speed * delta_time, stop_time)
}

/// One step of braking toward zero; a step that would cross zero stops at zero.
pub open spec fn approach_zero_spec(current: int, delta_time: int, max_speed: int, stop_time: int) -> int {
    let step = braking_step(delta_time, max_speed, stop_time);
    if current > step {
        current - step
    } else if current < -step {
        current + step
    } else {
        0
    }
}

fn approach_up_exec(current: i64, acceleration: i64, delta_time: i64, terminal: i64) -> (r: i64)
    requires
        in_range(current as int),
        in_range(acceleration as int),
        0 <= delta_time <= MAX_MAGNITUDE,
        0 <= terminal <= MAX_MAGNITUDE,
    ensures
        r == approach_up(current as int, acceleration as int, delta_time as int, terminal as int),
{
    proof {
        lemma_fmul_bound(acceleration as int, delta_time as int);
    }
    let step = fx_mul(acceleration, delta_time);
    let new = current + step;
    if new <= terminal {
        new
    } else if acceleration <= 0 {
        new
    } else if current < 0 || terminal == 0 {
        terminal
    } else {
        proof {
            lemma_fmul_bound(acceleration as int, delta_time as int);
            assert(step * new >= 0) by (nonlinear_arith)
                requires
                    step >= 0,
                    new >= 0,
            ;
            lemma_mul_bound(step as int, new as int, 1_000_000_000_000_000_000, 1_000_001_000_000_000_000);
        }
        let product: i128 = (step as i128) * (new as i128);
        let damping = div_toward_zero(product, terminal as i128);
        let damped: i128 = (new as i128) - damping;
        if damped > terminal as i128 {
            damped as i64
        } else {
            terminal
        }
    }
}

/// Integrates `current + acceleration * delta_time`, damping toward `terminal` once the
/// undamped value would pass it.
pub fn approach_velocity(current: i64, acceleration: i64, delta_time: i64, terminal: i64) -> (r: i64)
    requires
        in_range(current as int),
        in_range(acceleration as int),
        0 <= delta_time <= MAX_MAGNITUDE,
        in_range(terminal as int),
    ensures
        r == approach_velocity_spec(current as int, acceleration as int, delta_time as int, terminal as int),
{
    if terminal < 0 {
        proof {
            lemma_fmul_bound(acceleration as int, delta_time as int);
            lemma_fmul_bound(-acceleration, delta_time as int);
        }
        let up = approach_up_exec(-current, -acceleration, delta_time, -terminal);
        -up
    } else {
        approach_up_exec(current, acceleration, delta_time, terminal)
    }
}

/// Brakes `current` toward zero at the rate `max_speed / stop_time`, stopping at
/// exactly zero rather than crossing it.
pub fn approach_zero(current: i64, delta_time: i64, max_speed: i64, stop_time: i64) -> (r: i64)
    requires
        in_range(current as int),
        0 <= delta_time <= MAX_MAGNITUDE,
        0 <= max_speed <= MAX_MAGNITUDE,
        0 < stop_time <= MAX_MAGNITUDE,
    ensures
        r == approach_zero_spec(current as int, delta_time as int, max_speed as int, stop_time as int),
{
    proof {
        lemma_mul_bound(max_speed as int, delta_time as int, MAX_MAGNITUDE as int, MAX_MAGNITUDE as int);
        assert(max_speed * delta_time >= 0) by (nonlinear_arith)
            requires
                max_speed >= 0,
                delta_time >= 0,
        ;
    }
    let numerator: i128 = (max_speed as i128) * (delta_time as i128) + (stop_time as i128) - 1;
    let step: i128 = numerator / (stop_time as i128);
    let c: i128 = current as i128;
    if c > step {
        (c - step) as i64
    } else if c < -step {
        (c + step) as i64
    } else {
        0
    }
}

/// One integration step moves the value by at most the undamped increment plus the
/// terminal value.
pub proof fn lemma_approach_velocity_bound(current: int, acceleration: int, delta_time: int, terminal: int)
    requires
        in_range(current),
        in_range(acceleration),
        0 <= delta_time <= MAX_MAGNITUDE,
        in_range(terminal),
    ensures
        -1_000_002_000_000_000_000 <= approach_velocity_spec(current, acceleration, delta_time, terminal)
            <= 1_000_002_000_000_000_000,
{
    lemma_fmul_bound(acceleration, delta_time);
    lemma_fmul_bound(-acceleration, delta_time);
    let c = if terminal < 0 { -current } else { current };
    let a = if terminal < 0 { -acceleration } else { acceleration };
    let t = if terminal < 0 { -terminal } else { terminal };
    let step = fmul(a, delta_time);
    let new = c + step;
    if new > t && a > 0 && c >= 0 && t != 0 {
        assert(a * delta_time >= 0) by (nonlinear_arith)
            requires
                a > 0,
                delta_time >= 0,
        ;
        assert(step * new >= 0) by (nonlinear_arith)
            requires
                step >= 0,
                new >= 0,
        ;
        lemma_div_is_ordered(0, step * new, t);
    }
}

/// Braking never increases the magnitude of the value.
pub proof fn lemma_approach_zero_bound(current: int, delta_time: int, max_speed: int, stop_time: int)
    requires
        0 <= delta_time,
        0 <= max_speed,
        0 < stop_time,
    ensures
        current >= 0 ==> 0 <= approach_zero_spec(current, delta_time, max_speed, stop_time) <= current,
        current < 0 ==> current <= approach_zero_spec(current, delta_time, max_speed, stop_time) <= 0,
{
    assert(max_speed * delta_time >= 0) by (nonlinear_arith)
        requires
            max_speed >= 0,
            delta_time >= 0,
    ;
    lemma_div_up_covers(max_speed * delta_time, stop_time);
}

/// `approach_velocity` applied `steps` times from `start`.
pub open spec fn velocity_after_steps(start: int, acceleration: int, delta_time: int, terminal: int, steps: nat) -> int
    decreases steps,
{
    if steps == 0 {
        start
    } else {
        approach_velocity_spec(
            velocity_after_steps(start, acceleration, delta_time, terminal, (steps - 1) as nat),
            acceleration,
            delta_time,
            terminal,
        )
    }
}

/// `approach_zero` applied `steps` times from `start`.
pub open spec fn speed_after_braking(start: int, delta_time: int, max_speed: int, stop_time: int, steps: nat) -> int
    decreases steps,
{
    if steps == 0 {
        start
    } else {
        approach_zero_spec(
            speed_after_braking(start, delta_time, max_speed, stop_time, (steps - 1) as nat),
            delta_time,
            max_speed,
            stop_time,
        )
    }
}

/// Zero acceleration never changes the velocity, whatever the time step and terminal.
pub proof fn lemma_zero_acceleration_is_identity(current: int, delta_time: int, terminal: int)
    ensures
        approach_velocity_spec(current, 0, delta_time, terminal) == current,
{
    assert(0 * delta_time == 0) by (nonlinear_arith);
    assert(fmul(0, delta_time) == 0);
}

proof fn lemma_approach_up_stays_below(current: int, acceleration: int, delta_time: int, terminal: int)
    requires
        0 <= current <= terminal,
        acceleration >= 0,
        delta_time >= 0,
    ensures
        0 <= approach_up(current, acceleration, delta_time, terminal) <= terminal,
{
    let step = fmul(acceleration, delta_time);
    assert(acceleration * delta_time >= 0) by (nonlinear_arith)
        requires
            acceleration >= 0,
            delta_time >= 0,
    ;
    assert(step >= 0);
    assert(0 * delta_time == 0) by (nonlinear_arith);
    let new = current + step;
    assert(step * new >= 0) by (nonlinear_arith)
        requires
            step >= 0,
            new >= 0,
    ;
    if new > terminal && current >= 0 && terminal != 0 && acceleration > 0 {
        assert(step * terminal <= step * new) by (nonlinear_arith)
            requires
                step >= 0,
                new > terminal,
        ;
        assert(step * terminal >= 0) by (nonlinear_arith)
            requires
                step >= 0,
                terminal > 0,
        ;
        lemma_div_is_ordered(step * terminal, step * new, terminal);
        lemma_div_by_multiple(step, terminal);
        assert(div_tz(step * new, terminal) >= step);
    }
}

/// Starting from rest with an acceleration that points the same way as the terminal
/// value (zero counting as positive), repeated integration never leaves the interval
/// between zero and the terminal value, so its magnitude never exceeds `|terminal|`.
pub proof fn lemma_velocity_bounded_by_terminal(acceleration: int, delta_time: int, terminal: int, steps: nat)
    requires
        delta_time >= 0,
        (terminal >= 0 && acceleration >= 0) || (terminal < 0 && acceleration <= 0),
    ensures
        terminal >= 0 ==> 0 <= velocity_after_steps(0, acceleration, delta_time, terminal, steps) <= terminal,
        terminal < 0 ==> terminal <= velocity_after_steps(0, acceleration, delta_time, terminal, steps) <= 0,
    decreases steps,
{
    if steps > 0 {
        lemma_velocity_bounded_by_terminal(acceleration, delta_time, terminal, (steps - 1) as nat);
        let prev = velocity_after_steps(0, acceleration, delta_time, terminal, (steps - 1) as nat);
        if terminal < 0 {
            lemma_approach_up_stays_below(-prev, -acceleration, delta_time, -terminal);
        } else {
            lemma_approach_up_stays_below(prev, acceleration, delta_time, terminal);
        }
    }
}

proof fn lemma_div_up_covers(x: int, d: int)
    requires
        x >= 0,
        d > 0,
    ensures
        div_up(x, d) * d >= x,
        div_up(x, d) >= 0,
{
    lemma_fundamental_div_mod(x + d - 1, d);
    assert(0 <= (x + d - 1) % d < d);
    let q = (x + d - 1) / d;
    assert(q * d == d * q) by (nonlinear_arith);
    assert((x + d - 1) / d >= 0) by {
        lemma_div_is_ordered(0, x + d - 1, d);
    }
}

proof fn lemma_braking_closed_form(max_speed: int, delta_time: int, stop_time: int, steps: nat)
    requires
        max_speed >= 0,
        delta_time >= 0,
        stop_time > 0,
    ensures
        ({
            let step = braking_step(delta_time, max_speed, stop_time);
            let remaining = max_speed - steps * step;
            speed_after_braking(max_speed, delta_time, max_speed, stop_time, steps)
                == if remaining > 0 { remaining } else { 0 }
        }),
    decreases steps,
{
    assert(max_speed * delta_time >= 0) by (nonlinear_arith)
        requires
            max_speed >= 0,
            delta_time >= 0,
    ;
    lemma_div_up_covers(max_speed * delta_time, stop_time);
    if steps == 0 {
        assert(steps * braking_step(delta_time, max_speed, stop_time) == 0) by (nonlinear_arith)
            requires
                steps == 0,
        ;
    } else {
        lemma_braking_closed_form(max_speed, delta_time, stop_time, (steps - 1) as nat);
        let step = braking_step(delta_time, max_speed, stop_time);
        let prev = speed_after_braking(max_speed, delta_time, max_speed, stop_time, (steps - 1) as nat);
        assert(speed_after_braking(max_speed, delta_time, max_speed, stop_time, steps)
            == approach_zero_spec(prev, delta_time, max_speed, stop_time));
        assert(steps * step == (steps - 1) * step + step) by (nonlinear_arith);
        assert(step >= 0);
    }
}

/// Braking from `max_speed` never crosses zero, and reaches exactly zero within
/// `ceil(stop_time / delta_time)` steps.
pub proof fn lemma_braking_stops_in_time(max_speed: int, delta_time: int, stop_time: int, steps: nat)
    requires
        max_speed >= 0,
        delta_time > 0,
        stop_time > 0,
    ensures
        speed_after_braking(max_speed, delta_time, max_speed, stop_time, steps) >= 0,
        steps >= div_up(stop_time, delta_time)
            ==> speed_after_braking(max_speed, delta_time, max_speed, stop_time, steps) == 0,
{
    lemma_braking_closed_form(max_speed, delta_time, stop_time, steps);
    let step = braking_step(delta_time, max_speed, stop_time);
    let n = div_up(stop_time, delta_time);
    assert(max_speed * delta_time >= 0) by (nonlinear_arith)
        requires
            max_speed >= 0,
            delta_time >= 0,
    ;
    lemma_div_up_covers(max_speed * delta_time, stop_time);
    lemma_div_up_covers(stop_time, delta_time);
    if steps >= n {
        assert(steps * step >= max_speed) by (nonlinear_arith)
            requires
                step * stop_time >= max_speed * delta_time,
                n * delta_time >= stop_time,
                steps >= n,
                n >= 0,
                step >= 0,
                max_speed >= 0,
                delta_time > 0,
                stop_time > 0,
        ;
    }
}

} // verus!
