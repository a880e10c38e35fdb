use vstd::prelude::*;
use vstd::arithmetic::div_mod::lemma_div_is_ordered;
use vstd::arithmetic::mul::lemma_mul_inequality;

verus! {

/// Seconds in one hour; the fee is the hourly rate spread over the
/// minutes of an hour.
pub const HOUR_IN_SECONDS: u64 = 3600;

/// Stroops in one XLM, the unit in which rates and payments are counted.
pub const STROOPS_PER_XLM: i128 = 10_000_000;

/// Started minutes of a stay: the duration in seconds, rounded up to whole
/// minutes.
pub open spec fn minutes_of(duration_seconds: u64) -> int {
    (duration_seconds + 59) / 60
}

/// Integer division rounding toward zero, as `/` does on signed integers.
pub open spec fn div_toward_zero(x: int, d: int) -> int {
    if x >= 0 {
        x / d
    } else {
        -((-x) / d)
    }
}

/// The product of started minutes and the hourly rate, before the division
/// by sixty.
pub open spec fn rate_minutes(duration_seconds: u64, hourly_rate: i128) -> int {
    minutes_of(duration_seconds) * hourly_rate
}

/// The product fits the 128-bit signed range in which the fee is computed.
pub open spec fn fee_fits(duration_seconds: u64, hourly_rate: i128) -> bool {
    i128::MIN <= rate_minutes(duration_seconds, hourly_rate) <= i128::MAX
}

/// The fee for a stay: `ceil(duration / 60) * hourly_rate / 60`, the final
/// division truncating.
pub open spec fn fee_of(duration_seconds: u64, hourly_rate: i128) -> int {
    div_toward_zero(rate_minutes(duration_seconds, hourly_rate), 60)
}

/// Started minutes of a stay of `duration_seconds` seconds.
pub fn duration_minutes(duration_seconds: u64) -> (r: u64)
    ensures
        r == minutes_of(duration_seconds),
{
    let q: u64 = duration_seconds / 60;
    if duration_seconds % 60 == 0 {
        q
    } else {
        q + 1
    }
}

/// The fee for a stay of `duration_seconds` at `hourly_rate` stroops per
/// hour, or `None` where the intermediate product leaves the `i128` range.
pub fn fee_for_duration(duration_seconds: u64, hourly_rate: i128) -> (r: Option<i128>)
    ensures
        r == (if fee_fits(duration_seconds, hourly_rate) {
            Some(fee_of(duration_seconds, hourly_rate) as i128)
        } else {
            None::<i128>
        }),
{
    let minutes: u64 = duration_minutes(duration_seconds);
    assert(minutes < 0x1_0000_0000_0000_0000);
    match (minutes as i128).checked_mul(hourly_rate) {
        Some(product) => {
            let fee: i128 = product / 60;
            assert(fee == div_toward_zero(product as int, 60));
            Some(fee)
        },
        None => None,
    }
}

/// The fee never decreases as the clock advances, for a fixed entry time
/// and a rate that is not negative.
pub proof fn lemma_fee_monotone_in_now(entry_time: u64, now1: u64, now2: u64, hourly_rate: i128)
    requires
        entry_time <= now1 <= now2,
        hourly_rate >= 0,
    ensures
        fee_of((now1 - entry_time) as u64, hourly_rate) <= fee_of(
            (now2 - entry_time) as u64,
            hourly_rate,
        ),
{
    let d1 = (now1 - entry_time) as u64;
    let d2 = (now2 - entry_time) as u64;
    lemma_div_is_ordered(d1 + 59, d2 + 59, 60);
    lemma_mul_inequality(minutes_of(d1), minutes_of(d2), hourly_rate as int);
    assert(minutes_of(d1) >= 0) by {
        lemma_div_is_ordered(0, d1 + 59, 60);
    }
    assert(rate_minutes(d1, hourly_rate) >= 0) by (nonlinear_arith)
        requires
            minutes_of(d1) >= 0,
            hourly_rate >= 0,
            rate_minutes(d1, hourly_rate) == minutes_of(d1) * hourly_rate,
    ;
    lemma_div_is_ordered(rate_minutes(d1, hourly_rate), rate_minutes(d2, hourly_rate), 60);
}

} // verus!
