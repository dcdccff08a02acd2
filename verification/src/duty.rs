//! Fan duty: the percentages that may be asked for and the byte that stands
//! for each in the controller.

use vstd::prelude::*;

verus! {

/// Lowest fan duty, in percent, that the controller is asked for.
pub const MIN_FAN_DUTY: u8 = 40;

/// Highest fan duty, in percent.
pub const MAX_FAN_DUTY: u8 = 100;

/// Whether `percent` is a duty that the controller may be asked for.
pub open spec fn spec_duty_in_range(percent: u8) -> bool {
    MIN_FAN_DUTY <= percent <= MAX_FAN_DUTY
}

/// Whether `percent` is a duty that the controller may be asked for.
#[verifier::when_used_as_spec(spec_duty_in_range)]
pub fn duty_in_range(percent: u8) -> (ok: bool)
    ensures
        ok == spec_duty_in_range(percent),
{
    MIN_FAN_DUTY <= percent && percent <= MAX_FAN_DUTY
}

/// The controller's byte for a duty of `percent`: 255 hundredths of it,
/// rounded to the nearest integer, a half rounded up.
pub open spec fn spec_duty_byte(percent: u8) -> int {
    (255 * percent + 50) / 100
}

/// The controller's byte for a duty of `percent`.
///
/// The byte is the integer nearest to `percent / 100 * 255`; where two are
/// equally near, it is the greater.
pub fn duty_byte(percent: u8) -> (byte: u8)
    requires
        percent <= MAX_FAN_DUTY,
    ensures
        byte == spec_duty_byte(percent),
        100 * byte - 50 <= 255 * percent < 100 * byte + 50,
{
    let scaled: u16 = 255 * (percent as u16) + 50;
    (scaled / 100) as u8
}

/// A greater duty never gets a smaller byte, the lowest duty gets 102 and
/// the highest 255.
pub proof fn lemma_duty_byte_grows(lower: u8, higher: u8)
    requires
        lower <= higher,
    ensures
        spec_duty_byte(lower) <= spec_duty_byte(higher),
        spec_duty_byte(MIN_FAN_DUTY) == 102,
        spec_duty_byte(MAX_FAN_DUTY) == 255,
{
}

} // verus!
