use vstd::prelude::*;

verus! {

/// The greatest distance, in thousandths of a pixel, that a note moving at the
/// greatest speed of the games (400 pixels per second) covers in one frame.
pub const MAX_TRAVEL: i64 = 7_378_697_629_483_820_646;

/// The distance, in thousandths of a pixel, that a note moving at `speed`
/// pixels per second covers in `dt_us` microseconds.
pub open spec fn travel(speed: u64, dt_us: u64) -> int {
    speed * dt_us / 1000
}

pub proof fn lemma_travel_bounds(speed: u64, dt_us: u64)
    requires
        speed <= 400,
    ensures
        0 <= travel(speed, dt_us) <= MAX_TRAVEL,
{
    assert(speed * dt_us <= 400 * 18_446_744_073_709_551_615) by (nonlinear_arith)
        requires
            speed <= 400,
            dt_us <= 18_446_744_073_709_551_615u64,
    ;
    assert((speed * dt_us) / 1000 <= (400 * 18_446_744_073_709_551_615) / 1000) by (nonlinear_arith)
        requires
            0 <= speed * dt_us <= 400 * 18_446_744_073_709_551_615,
    ;
    assert(0 <= (speed * dt_us) / 1000) by (nonlinear_arith)
        requires
            0 <= speed * dt_us,
    ;
}

/// How far a note moving at `speed` pixels per second goes in `dt_us`
/// microseconds, in thousandths of a pixel, rounded down.
pub fn travel_distance(speed: u64, dt_us: u64) -> (d: i64)
    requires
        speed <= 400,
    ensures
        d == travel(speed, dt_us),
        0 <= d <= MAX_TRAVEL,
{
    proof {
        lemma_travel_bounds(speed, dt_us);
    }
    let wide: u128 = (speed as u128) * (dt_us as u128) / 1000;
    wide as i64
}

} // verus!
