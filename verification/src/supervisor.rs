//! When an adapter that has ended is started again.

use vstd::arithmetic::power2::pow2;
use vstd::prelude::*;

verus! {

/// The number of failures in a row after a run of the adapter: none after a
/// clean end.
pub fn next_attempt(attempt: u32, clean: bool) -> (r: u32)
    ensures
        r == (if clean {
            0
        } else if attempt == u32::MAX {
            u32::MAX
        } else {
            (attempt + 1) as u32
        }),
{
    if clean {
        0
    } else {
        attempt.saturating_add(1)
    }
}

/// How long to wait, in milliseconds, before the adapter is started again: half
/// a second, doubled with each failure in a row up to the sixth.
pub open spec fn spec_restart_delay(attempt: nat) -> nat {
    500 * pow2(
        if attempt > 6 {
            6
        } else {
            attempt
        },
    )
}

/// How long to wait, in milliseconds, before the adapter is started again.
pub fn restart_delay(attempt: u32) -> (r: u64)
    ensures
        r == spec_restart_delay(attempt as nat),
{
    let steps: u32 = if attempt > 6 {
        6
    } else {
        attempt
    };
    let mut wait: u64 = 500;
    let mut i: u32 = 0;
    proof {
        vstd::arithmetic::power2::lemma2_to64();
    }
    while i < steps
        invariant
            i <= steps <= 6,
            wait == 500 * pow2(i as nat),
            wait <= 500 * 64,
            pow2(0) == 1,
            pow2(1) == 2,
            pow2(2) == 4,
            pow2(3) == 8,
            pow2(4) == 16,
            pow2(5) == 32,
            pow2(6) == 64,
        decreases steps - i,
    {
        wait = wait * 2;
        i += 1;
    }
    wait
}

/// The wait grows with the failures in a row and stays between half a second
/// and thirty-two seconds.
pub proof fn law_delay_grows_within_bounds(a: nat, b: nat)
    requires
        a <= b,
    ensures
        500 <= spec_restart_delay(a) <= spec_restart_delay(b) <= 32000,
{
    vstd::arithmetic::power2::lemma2_to64();
}

/// The wait is half a second at first and doubles with each failure, up to half a minute
/// and two seconds.
pub proof fn law_delay_doubles(a: nat)
    ensures
        spec_restart_delay(0) == 500,
        a < 6 ==> spec_restart_delay(a + 1) == 2 * spec_restart_delay(a),
        a >= 6 ==> spec_restart_delay(a) == 32000,
{
    vstd::arithmetic::power2::lemma2_to64();
}

} // verus!
