//! How long a failed job waits.

use vstd::prelude::*;

verus! {

/// The seconds that a job waits after its `attempt`th failure.
pub open spec fn delay_after(attempt: u32) -> u64 {
    if attempt == 0 {
        0
    } else if attempt == 1 {
        5
    } else if attempt == 2 {
        15
    } else if attempt == 3 {
        30
    } else if attempt == 4 {
        60
    } else {
        300
    }
}

/// The delay after a failed attempt in seconds, by how many attempts have failed.
pub fn retry_delay(attempt_count_after_failure: u32) -> (r: u64)
    ensures
        r == delay_after(attempt_count_after_failure),
{
    match attempt_count_after_failure {
        0 => 0,
        1 => 5,
        2 => 15,
        3 => 30,
        4 => 60,
        _ => 300,
    }
}

/// A job waits no shorter after another failure, and never longer than five minutes.
pub proof fn law_delays_grow_to_a_bound(a: u32, b: u32)
    requires
        a <= b,
    ensures
        delay_after(a) <= delay_after(b) <= 300,
{
}

/// How long a job waits after each failure.
pub proof fn law_the_delays_between_attempts(attempt: u32)
    ensures
        delay_after(1) == 5,
        delay_after(2) == 15,
        delay_after(3) == 30,
        delay_after(4) == 60,
        attempt >= 5 ==> delay_after(attempt) == 300,
{
}

} // verus!
