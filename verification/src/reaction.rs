use vstd::prelude::*;
use crate::numeric::{
    round_nearest, sqrt_floor, div_round_nearest_i128, div_floor_i128,
    isqrt_u128, lemma_round_nearest_bounds, lemma_div_bounds,
};
use crate::vehicle::{Car, ACCELERATION_VALUE, DECCELERATION_VALUE};
use crate::obstacle::Obstacle;

verus! {

/// Upper bound on the magnitude of any event offset the closed forms
/// produce, in milliseconds.
pub const MAX_EVENT_OFFSET: i64 = 8_500_000_000_000_000_000;

/// An obstacle's acceleration is one of the three control values.
pub open spec fn spec_obstacle_modes(o: Obstacle) -> bool {
    o.acceleration == ACCELERATION_VALUE || o.acceleration == 0
        || o.acceleration == DECCELERATION_VALUE
}

/// The instant at which the vehicle must begin braking at the full
/// deceleration to come to rest exactly one buffer short of the obstacle,
/// in milliseconds from now; `None` where no braking is ever needed.
///
/// With `obs_dec` the obstacle is taken to start braking now (the
/// leader-worst-case); with `veh_acc` the vehicle is taken to switch to
/// accelerating now (the hypothetical behind the decision to accelerate).
/// Everything is the closed form over the relative kinematics: for gap
/// `dx <= 0`, closing speed `dv`, relative acceleration `da` and
/// `g = D - da` with braking value `D`, the instant is the root of a
/// scalar quadratic, rounded to the millisecond.  `rx8` carries the gap
/// scaled by `-2 D = 8000` so that every quantity stays an integer.
pub open spec fn spec_reaction_time_ms(
    v: Car, o: Obstacle, veh_acc: bool, obs_dec: bool) -> Option<int> {
    let rx = v.position - o.position;
    let ru0 = v.speed - o.speed;
    let ra0 = v.acceleration - o.acceleration;
    let b = v.buffer_zone + o.length;
    if !veh_acc && (v.acceleration == DECCELERATION_VALUE || (ru0 <= 0 && ra0 <= 0)) {
        None
    } else {
        let dec_adj = o.acceleration == DECCELERATION_VALUE || obs_dec;
        let ru = if dec_adj { v.speed as int } else { ru0 };
        let ra1 = if dec_adj { v.acceleration as int } else { ra0 };
        let ra = if veh_acc { ra1 - v.acceleration + ACCELERATION_VALUE } else { ra1 };
        let rx8 = 8000 * rx - (if dec_adj { o.speed * o.speed } else { 0 });
        if veh_acc && 10 * rx8 > -88_000 * b {
            Some(0)
        } else if ra == 0 {
            if ru <= 0 {
                None
            } else {
                Some(round_nearest(1000 * (-8000 * b - ru * ru - rx8), 8000 * ru))
            }
        } else {
            let gamma = -4000 - ra;
            let f = -rx8 - ru * ru - 8000 * b;
            let s6 = 1_000_000 * (ru * ru * gamma * gamma - ra * gamma * f);
            if s6 < 0 {
                None
            } else {
                let num = -1000 * ru * gamma - sqrt_floor(s6);
                let den = ra * gamma;
                if den > 0 {
                    Some(round_nearest(num, den))
                } else {
                    Some(round_nearest(-num, -den))
                }
            }
        }
    }
}

/// Executable form of the reaction instant; see `spec_reaction_time_ms`.
pub fn time_to_obstacle_event(
    vehicle: &Car, obstacle: &Obstacle, veh_acc: bool, obs_dec: bool) -> (r: Option<i64>)
    requires
        vehicle.wf(),
        obstacle.wf(),
        spec_obstacle_modes(*obstacle),
        vehicle.position <= obstacle.position,
    ensures
        match r {
            Some(t) => spec_reaction_time_ms(*vehicle, *obstacle, veh_acc, obs_dec)
                    == Some(t as int)
                && -MAX_EVENT_OFFSET <= t <= MAX_EVENT_OFFSET,
            None => spec_reaction_time_ms(*vehicle, *obstacle, veh_acc, obs_dec)
                    is None,
        },
{
    let rx: i128 = vehicle.position as i128 - obstacle.position as i128;
    let ru0: i128 = vehicle.speed as i128 - obstacle.speed as i128;
    let ra0: i128 = vehicle.acceleration as i128 - obstacle.acceleration as i128;
    let b: i128 = vehicle.buffer_zone as i128 + obstacle.length as i128;
    if !veh_acc
        && (vehicle.acceleration == DECCELERATION_VALUE || (ru0 <= 0 && ra0 <= 0)) {
        return None;
    }
    let dec_adj = obstacle.acceleration == DECCELERATION_VALUE || obs_dec;
    proof {
        assert(0 <= (obstacle.speed as int) * (obstacle.speed as int)
            <= 10_000_000_000) by (nonlinear_arith)
            requires 0 <= obstacle.speed <= 100_000;
    }
    let ru: i128 = if dec_adj { vehicle.speed as i128 } else { ru0 };
    let ra1: i128 = if dec_adj { vehicle.acceleration as i128 } else { ra0 };
    let ra: i128 = if veh_acc {
        ra1 - vehicle.acceleration as i128 + ACCELERATION_VALUE as i128
    } else {
        ra1
    };
    let rx8: i128 = 8000 * rx - (if dec_adj {
        obstacle.speed as i128 * obstacle.speed as i128
    } else {
        0
    });
    if veh_acc && 10 * rx8 > -88_000 * b {
        return Some(0);
    }
    proof {
        assert(-20_000 <= ra <= 20_000);
        assert(-66_000_000_000_000_000_000 <= rx8 <= 0);
        assert(0 <= ru * ru <= 40_000_000_000) by (nonlinear_arith)
            requires -200_000 <= ru <= 200_000;
    }
    if ra == 0 {
        if ru <= 0 {
            return None;
        }
        let num: i128 = 1000 * (-8000 * b - ru * ru - rx8);
        let q: i128 = 8000 * ru;
        proof {
            assert(-1_000_000_000_000_000 <= num <= 67_000_000_000_000_000_000_000);
            lemma_round_nearest_bounds(num as int, q as int);
            assert(-(MAX_EVENT_OFFSET as int) <= round_nearest(num as int, q as int)
                <= MAX_EVENT_OFFSET as int) by (nonlinear_arith)
                requires
                    q * round_nearest(num as int, q as int) <= num + q,
                    q * round_nearest(num as int, q as int) >= num - q,
                    8000 <= q <= 1_600_000_000,
                    -1_000_000_000_000_000 <= num <= 67_000_000_000_000_000_000_000,
                    MAX_EVENT_OFFSET == 8_500_000_000_000_000_000;
        }
        let t = div_round_nearest_i128(num, q);
        return Some(t as i64);
    }
    proof {
        assert(ra == 3000 || ra == 4000 || ra == 7000 || ra == -3000);
    }
    let gamma: i128 = -4000 - ra;
    let f: i128 = -rx8 - ru * ru - 8000 * b;
    proof {
        assert((ra == 3000 && gamma == -7000) || (ra == 4000 && gamma == -8000)
            || (ra == 7000 && gamma == -11_000) || (ra == -3000 && gamma == -1000));
        assert(-800_000_000_000_000 <= ru * ru * gamma <= 800_000_000_000_000)
            by (nonlinear_arith)
            requires 0 <= ru * ru <= 40_000_000_000, -20_000 <= gamma <= 20_000;
        assert(0 <= ru * ru * gamma * gamma
            <= 16_000_000_000_000_000_000) by (nonlinear_arith)
            requires 0 <= ru * ru <= 40_000_000_000, -20_000 <= gamma <= 20_000;
        assert(-70_000_000_000_000_000_000 <= f <= 70_000_000_000_000_000_000);
        assert(
            -28_000_000_000_000_000_000_000_000_000 <= ra * gamma * f
            <= 28_000_000_000_000_000_000_000_000_000
        ) by (nonlinear_arith)
            requires
                -20_000 <= ra <= 20_000,
                -20_000 <= gamma <= 20_000,
                -70_000_000_000_000_000_000 <= f <= 70_000_000_000_000_000_000;
    }
    let s6: i128 = 1_000_000 * (ru * ru * gamma * gamma - ra * gamma * f);
    if s6 < 0 {
        return None;
    }
    let root: u128 = isqrt_u128(s6 as u128);
    proof {
        assert((root as int) * (root as int) <= s6 as int);
        assert(s6 <= 29_000_000_000_000_000_000_000_000_000_000_000i128);
        assert(root <= 200_000_000_000_000_000u128) by (nonlinear_arith)
            requires
                (root as int) * (root as int)
                    <= 29_000_000_000_000_000_000_000_000_000_000_000int;
        assert(-200_000_000_000_000 <= (-1000 * ru) * gamma <= 200_000_000_000_000)
            by (nonlinear_arith)
            requires -200_000 <= ru <= 200_000, -20_000 <= gamma <= 20_000;
        assert(ra * gamma != 0 && (ra * gamma >= 3_000_000 || ra * gamma <= -3_000_000)
            && -400_000_000 <= ra * gamma <= 400_000_000) by (nonlinear_arith)
            requires
                (ra == 3000 && gamma == -7000) || (ra == 4000 && gamma == -8000)
                    || (ra == 7000 && gamma == -11_000)
                    || (ra == -3000 && gamma == -1000);
    }
    let num: i128 = -1000 * ru * gamma - root as i128;
    let den: i128 = ra * gamma;
    let t: i128 = if den > 0 {
        proof {
            lemma_round_nearest_bounds(num as int, den as int);
            assert(-(MAX_EVENT_OFFSET as int) <= round_nearest(num as int, den as int)
                <= MAX_EVENT_OFFSET as int) by (nonlinear_arith)
                requires
                    den * round_nearest(num as int, den as int) <= num + den,
                    den * round_nearest(num as int, den as int) >= num - den,
                    3_000_000 <= den <= 400_000_000,
                    -300_000_000_000_000_000 <= num <= 300_000_000_000_000_000,
                    MAX_EVENT_OFFSET == 8_500_000_000_000_000_000;
        }
        div_round_nearest_i128(num, den)
    } else {
        proof {
            lemma_round_nearest_bounds(-num as int, -den as int);
            assert(-(MAX_EVENT_OFFSET as int)
                <= round_nearest(-num as int, -den as int)
                <= MAX_EVENT_OFFSET as int) by (nonlinear_arith)
                requires
                    (-den) * round_nearest(-num as int, -den as int) <= -num + -den,
                    (-den) * round_nearest(-num as int, -den as int) >= -num - -den,
                    3_000_000 <= -den <= 400_000_000,
                    -300_000_000_000_000_000 <= -num <= 300_000_000_000_000_000,
                    MAX_EVENT_OFFSET == 8_500_000_000_000_000_000;
        }
        div_round_nearest_i128(-num, -den)
    };
    Some(t as i64)
}

/// The instant at which the vehicle draws level with the synthetic
/// end-of-road obstacle: the earliest non-negative root of the relative
/// displacement equation, floored to the millisecond.  `None` where the
/// vehicle never reaches it.
pub open spec fn spec_exit_time_ms(v: Car, o: Obstacle) -> Option<int> {
    let rx = v.position - o.position;
    let ru = v.speed - o.speed;
    let ra = v.acceleration - o.acceleration;
    if ru == 0 {
        None
    } else if ra == 0 {
        Some(1000 * (-rx) / ru)
    } else {
        let r6 = 1_000_000 * (ru * ru - 2 * rx * ra);
        if ra > 0 {
            Some((-1000 * ru + sqrt_floor(r6)) / ra)
        } else {
            if ru * ru > 2 * rx * ra {
                Some((1000 * ru - sqrt_floor(r6)) / (-ra))
            } else {
                None
            }
        }
    }
}

/// Executable form of the exit instant; see `spec_exit_time_ms`.
pub fn time_to_exit_event(vehicle: &Car, obstacle: &Obstacle) -> (r: Option<i64>)
    requires
        vehicle.wf(),
        obstacle.wf(),
        spec_obstacle_modes(*obstacle),
        vehicle.position <= obstacle.position,
        vehicle.speed >= obstacle.speed,
    ensures
        match r {
            Some(t) => spec_exit_time_ms(*vehicle, *obstacle) == Some(t as int)
                && 0 <= t <= MAX_EVENT_OFFSET,
            None => spec_exit_time_ms(*vehicle, *obstacle) is None,
        },
{
    let rx: i128 = vehicle.position as i128 - obstacle.position as i128;
    let ru: i128 = vehicle.speed as i128 - obstacle.speed as i128;
    let ra: i128 = vehicle.acceleration as i128 - obstacle.acceleration as i128;
    if ru == 0 {
        return None;
    }
    if ra == 0 {
        let num: i128 = 1000 * (-rx);
        let t = div_floor_i128(num, ru);
        proof {
            lemma_div_bounds(num as int, ru as int);
        }
        return Some(t as i64);
    }
    proof {
        assert(0 < ru * ru <= 40_000_000_000) by (nonlinear_arith)
            requires 0 < ru <= 200_000;
        assert(0 <= 2 * rx * ra + 120_000_000_000_000_000_000
            && -120_000_000_000_000_000_000 <= 2 * rx * ra <= 120_000_000_000_000_000_000)
            by (nonlinear_arith)
            requires -8_000_000_000_000_000 <= rx <= 0, -7000 <= ra <= 7000;
    }
    let disc: i128 = ru * ru - 2 * rx * ra;
    if ra > 0 {
        let r6: i128 = 1_000_000 * disc;
        proof {
            assert(r6 >= 1_000_000 * (ru * ru)) by (nonlinear_arith)
                requires disc == ru * ru - 2 * rx * ra, rx <= 0, ra > 0,
                    r6 == 1_000_000 * disc;
        }
        let root: u128 = isqrt_u128(r6 as u128);
        proof {
            assert(root as int >= 1000 * ru) by (nonlinear_arith)
                requires
                    (r6 as int) < ((root as int) + 1) * ((root as int) + 1),
                    r6 >= 1_000_000 * (ru * ru),
                    0 < ru <= 200_000,
                    root >= 0;
            assert(root as int <= 400_000_000_000_000) by (nonlinear_arith)
                requires
                    (root as int) * (root as int) <= r6 as int,
                    r6 <= 1_000_000 * 160_000_000_000_000_000_000int;
        }
        let num: i128 = -1000 * ru + root as i128;
        let t = div_floor_i128(num, ra);
        proof {
            lemma_div_bounds(num as int, ra as int);
        }
        return Some(t as i64);
    }
    if disc > 0 {
        let r6: i128 = 1_000_000 * disc;
        let root: u128 = isqrt_u128(r6 as u128);
        proof {
            assert(r6 <= 1_000_000 * (ru * ru)) by (nonlinear_arith)
                requires disc == ru * ru - 2 * rx * ra, rx <= 0, ra < 0,
                    r6 == 1_000_000 * disc;
            assert(root as int <= 1000 * ru) by (nonlinear_arith)
                requires
                    (root as int) * (root as int) <= r6 as int,
                    r6 <= 1_000_000 * (ru * ru),
                    0 < ru <= 200_000,
                    root >= 0;
        }
        let num: i128 = 1000 * ru - root as i128;
        let t = div_floor_i128(num, -ra);
        proof {
            lemma_div_bounds(num as int, -ra as int);
        }
        return Some(t as i64);
    }
    None
}

/// The instant at which the relative speed to the obstacle, falling under
/// a negative relative acceleration, reaches `aim`, floored to the
/// millisecond.
pub open spec fn spec_rel_speed_aim_ms(v: Car, o: Obstacle, aim: int) -> int {
    1000 * (v.speed - o.speed - aim) / (o.acceleration - v.acceleration)
}

/// Executable form of the speed-matching instant; see
/// `spec_rel_speed_aim_ms`.
pub fn time_to_rel_speed_aim(vehicle: &Car, obstacle: &Obstacle, aim: i64) -> (r: i64)
    requires
        vehicle.wf(),
        obstacle.wf(),
        spec_obstacle_modes(*obstacle),
        vehicle.speed >= obstacle.speed,
        vehicle.acceleration < obstacle.acceleration,
        -1000 <= aim <= 0,
    ensures
        r == spec_rel_speed_aim_ms(*vehicle, *obstacle, aim as int),
        0 <= r <= MAX_EVENT_OFFSET,
{
    let num: i128 = 1000
        * (vehicle.speed as i128 - obstacle.speed as i128 - aim as i128);
    let den: i128 = obstacle.acceleration as i128 - vehicle.acceleration as i128;
    let t = div_floor_i128(num, den);
    proof {
        lemma_div_bounds(num as int, den as int);
    }
    t as i64
}

} // verus!
