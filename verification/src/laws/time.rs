//! What times are for: how long it is from one instant to another, and how an instant is shown.
use vstd::prelude::*;

use crate::time::{clock_text, elapsed_nanos, minute_text, Instant, LOCAL_FORMAT};

verus! {

/// Outside leap seconds, the time from one instant to another is the difference of their nanoseconds
/// since the epoch.
pub proof fn elapsed_time_is_the_difference(a: Instant, b: Instant)
    requires
        a.nanos() < 1_000_000_000,
        b.nanos() < 1_000_000_000,
    ensures
        elapsed_nanos(a, b) == (a.secs() * 1_000_000_000 + a.nanos()) - (b.secs() * 1_000_000_000
            + b.nanos()),
{
}

/// The way back takes as long as the way there, with or without leap seconds.
pub proof fn elapsed_time_has_a_direction(a: Instant, b: Instant)
    ensures
        elapsed_nanos(a, b) == -elapsed_nanos(b, a),
        elapsed_nanos(a, a) == 0,
{
}

/// A time is shown to the minute: in UTC, which it says, or on the clocks of a zone, with the name of the
/// offset in effect.
pub proof fn a_time_is_shown_to_the_minute(at: Instant)
    ensures
        minute_text(at) == clock_text(at, "UTC"@, "%Y-%m-%d %H:%M UTC"@),
        LOCAL_FORMAT@ == "%Y-%m-%d %H:%M %Z"@,
{
}

} // verus!
