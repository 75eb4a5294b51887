//! Which windows to audit: one given window, or windows drawn at random inside it.

use rand::Rng;
use vstd::prelude::*;

use crate::candles::Time;
use crate::error::AuditError;
use crate::utc::{representable, sub_days};

verus! {

/// How the windows of a run are chosen.
#[derive(Clone, Copy, Debug)]
pub enum Mode {
    /// The given window itself, once.
    Simple,
    /// `limit` windows drawn at random inside the given one.
    Randomized { limit: usize },
}

/// The resolution of a default run, in minutes.
pub const DEFAULT_RESOLUTION_MINUTES: u32 = 60;

/// How many days a default run looks back.
pub const DEFAULT_WINDOW_DAYS: u64 = 14;

/// 21:00 on 12 May 2024.
pub const MAY_12_2100: Time = 1_715_547_600;

/// 02:00 on 13 May 2024.
pub const MAY_13_0200: Time = 1_715_565_600;

/// 05:00 on 13 May 2024.
pub const MAY_13_0500: Time = 1_715_576_400;

/// 08:00 on 13 May 2024.
pub const MAY_13_0800: Time = 1_715_587_200;

/// 10:00 on 13 May 2024.
pub const MAY_13_1000: Time = 1_715_594_400;

/// 12:00 on 13 May 2024.
pub const MAY_13_1200: Time = 1_715_601_600;

/// Whether `lower <= start <= end <= upper` holds of the window `w`.
pub open spec fn within(w: (Time, Time), lower: Time, upper: Time) -> bool {
    lower <= w.0 <= w.1 <= upper
}

/// What a run in `mode` over the window from `lower` to `upper` may audit:
/// the window itself, or `limit` windows inside it.
pub open spec fn planned(periods: Seq<(Time, Time)>, lower: Time, upper: Time, mode: Mode) -> bool {
    match mode {
        Mode::Simple => periods == seq![(lower, upper)],
        Mode::Randomized { limit } => {
            &&& periods.len() == limit
            &&& forall|i: int|
                0 <= i < periods.len() ==> within(#[trigger] periods[i], lower, upper)
        },
    }
}

/// `rand`: `thread_rng` and `Rng::gen_range` on an inclusive range.
///
/// Trusted: the number drawn lies in the range, both ends included.  The range
/// must not be empty, or `gen_range` panics.
#[verifier::external_body]
fn random_between(low: Time, high: Time) -> (t: Time)
    requires
        low <= high,
    ensures
        low <= t <= high,
{
    rand::thread_rng().gen_range(low..=high)
}

/// Draws `limit` windows inside the one from `lower_time_bound` to
/// `upper_time_bound`: the start anywhere in it, the end anywhere from the start on.
pub fn generate_random_time_periods(
    lower_time_bound: Time,
    upper_time_bound: Time,
    limit: usize,
) -> (periods: Vec<(Time, Time)>)
    requires
        lower_time_bound <= upper_time_bound,
    ensures
        periods@.len() == limit,
        forall|i: int|
            0 <= i < periods@.len() ==> within(
                #[trigger] periods@[i],
                lower_time_bound,
                upper_time_bound,
            ),
{
    let mut vec: Vec<(Time, Time)> = Vec::with_capacity(limit);
    let mut drawn: usize = 0;
    while drawn < limit
        invariant
            drawn <= limit,
            lower_time_bound <= upper_time_bound,
            vec@.len() == drawn,
            forall|i: int|
                0 <= i < vec@.len() ==> within(
                    #[trigger] vec@[i],
                    lower_time_bound,
                    upper_time_bound,
                ),
        decreases limit - drawn,
    {
        let start = random_between(lower_time_bound, upper_time_bound);
        let end = random_between(start, upper_time_bound);
        vec.push((start, end));
        drawn += 1;
    }
    vec
}

/// The windows that a run in `mode` audits, in the order in which it audits them.
/// Drawing windows at random needs a window to draw from, so it asks for
/// `lower_time_bound <= upper_time_bound`.
pub fn windows_for_mode(lower_time_bound: Time, upper_time_bound: Time, mode: Mode) -> (periods:
    Vec<(Time, Time)>)
    requires
        mode is Randomized ==> lower_time_bound <= upper_time_bound,
    ensures
        planned(periods@, lower_time_bound, upper_time_bound, mode),
{
    match mode {
        Mode::Simple => {
            let mut periods: Vec<(Time, Time)> = Vec::new();
            periods.push((lower_time_bound, upper_time_bound));
            assert(periods@ =~= seq![(lower_time_bound, upper_time_bound)]);
            periods
        },
        Mode::Randomized { limit } => generate_random_time_periods(
            lower_time_bound,
            upper_time_bound,
            limit,
        ),
    }
}

/// Three windows in which the chart of the endpoint showed no candles, for
/// looking at what the endpoint answers there.
pub fn known_gap_windows() -> (periods: Vec<(Time, Time)>)
    ensures
        periods@ == seq![
            (MAY_12_2100, MAY_13_0200),
            (MAY_13_0500, MAY_13_0800),
            (MAY_13_1000, MAY_13_1200),
        ],
{
    let mut periods: Vec<(Time, Time)> = Vec::new();
    periods.push((MAY_12_2100, MAY_13_0200));
    periods.push((MAY_13_0500, MAY_13_0800));
    periods.push((MAY_13_1000, MAY_13_1200));
    periods
}

/// The window of a default run: the fourteen days up to `now`.
///
/// Fails when `now`, or the instant fourteen days before it, is no instant that
/// UTC calendar time can hold.
pub fn default_window(now: Time) -> (r: Result<(Time, Time), AuditError>)
    ensures
        r is Ok <==> representable(now as int) && representable(now - 14 * 86_400),
        r matches Ok(w) ==> w.0 == now - 14 * 86_400 && w.1 == now,
        r matches Err(e) ==> e == AuditError::Arithmetic,
{
    match sub_days(now, DEFAULT_WINDOW_DAYS) {
        Ok(lower) => Ok((lower, now)),
        Err(e) => Err(e),
    }
}

} // verus!
