//! The coverage audit: one verdict for each timestamp at which a candle is due.

use vstd::prelude::*;
use vstd::string::StringExecFns;

use crate::candles::{ApiResult, CandleData, StructuredApiResult, Time};
use crate::error::AuditError;
use crate::schedule::{as_ints, expected, expected_timestamps, lemma_expected_strict_interior};
use crate::utc::{format_utc, representable, utc_text};

verus! {

/// Whether the response holds a candle for an expected timestamp.
#[derive(Clone, Copy, Debug, PartialEq, Eq, Structural)]
pub enum Verdict {
    Present,
    Absent,
}

/// What the audit of one window came to.
#[derive(Debug)]
pub enum WindowOutcome {
    /// The response held no candle at all, which says nothing about gaps.
    NoResults,
    /// The verdicts in timestamp order, and the log line of each.
    Audited { verdicts: Vec<Verdict>, lines: Vec<String> },
}

/// What is logged for a window whose response holds no candle.
pub const NO_RESULTS_MESSAGE: &'static str = "No results gotten for time period";

/// The verdict on the timestamp `t`.
pub open spec fn verdict_of<P>(rows: Map<Time, CandleData<P>>, t: Time) -> Verdict {
    if rows.dom().contains(t) {
        Verdict::Present
    } else {
        Verdict::Absent
    }
}

/// The verdicts on a window: none where the response holds no candle at all,
/// else one for each expected timestamp, in order.
pub open spec fn verdicts<P>(rows: Map<Time, CandleData<P>>, from: int, to: int, r: int) -> Seq<
    Verdict,
> {
    if rows.is_empty() {
        Seq::empty()
    } else {
        Seq::new(
            expected(from, to, r).len(),
            |i: int| verdict_of(rows, expected(from, to, r)[i] as Time),
        )
    }
}

/// What follows the timestamp in the log line of a verdict, namely a green tick
/// or a red cross, and what was found, in words.
pub open spec fn verdict_text(verdict: Verdict) -> Seq<char> {
    match verdict {
        Verdict::Present => ": \x1b[32m\u{2713}\x1b[0m Found candle data from API"@,
        Verdict::Absent => ": \x1b[31mX\x1b[0m No candle data found from API"@,
    }
}

/// The log line of a verdict on the timestamp `t`.
pub open spec fn line_text(t: int, verdict: Verdict) -> Seq<char> {
    utc_text(t) + verdict_text(verdict)
}

/// Whether `lines` holds the log line of each verdict on a window, in order.
pub open spec fn lines_report<P>(
    lines: Seq<String>,
    rows: Map<Time, CandleData<P>>,
    from: int,
    to: int,
    r: int,
) -> bool {
    &&& lines.len() == verdicts(rows, from, to, r).len()
    &&& forall|i: int|
        0 <= i < lines.len() ==> (#[trigger] lines[i])@ == line_text(
            expected(from, to, r)[i],
            verdicts(rows, from, to, r)[i],
        )
}

impl WindowOutcome {
    /// Whether this is the outcome of auditing a window against `rows`.
    pub open spec fn reports<P>(
        self,
        rows: Map<Time, CandleData<P>>,
        from: int,
        to: int,
        r: int,
    ) -> bool {
        match self {
            WindowOutcome::NoResults => rows.is_empty(),
            WindowOutcome::Audited { verdicts: found, lines } => {
                &&& !rows.is_empty()
                &&& found@ == verdicts(rows, from, to, r)
                &&& lines_report(lines@, rows, from, to, r)
            },
        }
    }
}

/// A response without any candle gives no verdict, whatever the window.
pub proof fn lemma_empty_response_gives_no_verdicts<P>(
    response: ApiResult<P>,
    from: int,
    to: int,
    r: int,
)
    requires
        response.rows().is_empty(),
    ensures
        verdicts(response.rows(), from, to, r).len() == 0,
{
}

/// A response with at least one candle gives exactly one verdict for each
/// expected timestamp.
pub proof fn lemma_one_verdict_for_each_expected<P>(
    rows: Map<Time, CandleData<P>>,
    from: int,
    to: int,
    r: int,
)
    requires
        !rows.is_empty(),
    ensures
        verdicts(rows, from, to, r).len() == expected(from, to, r).len(),
{
}

/// The verdict on the timestamp `t`.
pub fn verdict_for<P: Copy>(normalized: &StructuredApiResult<P>, t: Time) -> (v: Verdict)
    ensures
        v == verdict_of(normalized@, t),
{
    if normalized.has_candle(t) {
        Verdict::Present
    } else {
        Verdict::Absent
    }
}

/// The log line of a verdict, given the timestamp as text.
pub fn compose_line(stamp: &str, verdict: Verdict) -> (line: String)
    ensures
        line@ == stamp@ + verdict_text(verdict),
{
    let mut line = String::from_str(stamp);
    match verdict {
        Verdict::Present => line.append(": \x1b[32m\u{2713}\x1b[0m Found candle data from API"),
        Verdict::Absent => line.append(": \x1b[31mX\x1b[0m No candle data found from API"),
    }
    line
}

/// The log line of a verdict on the timestamp `time`.
///
/// Fails when `time` is no instant that UTC calendar time can hold.
pub fn verdict_line(time: Time, verdict: Verdict) -> (r: Result<String, AuditError>)
    ensures
        r is Ok <==> representable(time as int),
        r matches Ok(line) ==> line@ == line_text(time as int, verdict),
        r matches Err(e) ==> e == AuditError::Arithmetic,
{
    match format_utc(time) {
        Ok(stamp) => Ok(compose_line(stamp.as_str(), verdict)),
        Err(e) => Err(e),
    }
}

/// Audits one window against a response by rows.
///
/// A response without any candle gives no verdict, whatever the window.
/// Otherwise there is one verdict for each expected timestamp, in timestamp
/// order, and the audit fails when an end of the window is no instant that UTC
/// calendar time can hold.
pub fn audit<P: Copy>(
    from: Time,
    to: Time,
    resolution_minutes: u32,
    normalized: &StructuredApiResult<P>,
) -> (r: Result<Vec<Verdict>, AuditError>)
    requires
        resolution_minutes > 0,
    ensures
        r is Ok <==> normalized@.is_empty() || (representable(from as int) && representable(
            to as int,
        )),
        r matches Ok(v) ==> v@ == verdicts(
            normalized@,
            from as int,
            to as int,
            resolution_minutes as int,
        ),
        r matches Ok(v) ==> (normalized@.is_empty() ==> v@.len() == 0) && (!normalized@.is_empty()
            ==> v@.len() == expected(from as int, to as int, resolution_minutes as int).len()),
        r matches Err(e) ==> e == AuditError::Arithmetic,
{
    let mut out: Vec<Verdict> = Vec::new();
    if normalized.is_empty() {
        return Ok(out);
    }
    let times = match expected_timestamps(from, to, resolution_minutes) {
        Ok(times) => times,
        Err(e) => {
            return Err(e);
        },
    };
    let ghost all = expected(from as int, to as int, resolution_minutes as int);
    let mut i: usize = 0;
    while i < times.len()
        invariant
            i <= times.len(),
            as_ints(times@) == all,
            out@.len() == i,
            forall|j: int| 0 <= j < i ==> out@[j] == verdict_of(normalized@, all[j] as Time),
        decreases times.len() - i,
    {
        assert(as_ints(times@)[i as int] == times@[i as int]);
        out.push(verdict_for(normalized, times[i]));
        i += 1;
    }
    assert(as_ints(times@).len() == times@.len());
    assert(out@ =~= verdicts(normalized@, from as int, to as int, resolution_minutes as int));
    Ok(out)
}

/// The log lines of the verdicts on a window, one for each verdict of
/// [`audit`], in the same order.
pub fn audit_lines<P: Copy>(
    from: Time,
    to: Time,
    resolution_minutes: u32,
    normalized: &StructuredApiResult<P>,
) -> (r: Result<Vec<String>, AuditError>)
    requires
        resolution_minutes > 0,
    ensures
        r is Ok <==> normalized@.is_empty() || (representable(from as int) && representable(
            to as int,
        )),
        r matches Ok(lines) ==> lines_report(
            lines@,
            normalized@,
            from as int,
            to as int,
            resolution_minutes as int,
        ),
        r matches Err(e) ==> e == AuditError::Arithmetic,
{
    let mut out: Vec<String> = Vec::new();
    if normalized.is_empty() {
        return Ok(out);
    }
    let times = match expected_timestamps(from, to, resolution_minutes) {
        Ok(times) => times,
        Err(e) => {
            return Err(e);
        },
    };
    let ghost all = expected(from as int, to as int, resolution_minutes as int);
    let ghost v = verdicts(normalized@, from as int, to as int, resolution_minutes as int);
    proof {
        lemma_expected_strict_interior(from as int, to as int, resolution_minutes as int);
        assert(as_ints(times@).len() == times@.len());
    }
    let mut i: usize = 0;
    while i < times.len()
        invariant
            i <= times.len(),
            as_ints(times@) == all,
            all.len() == times@.len(),
            v == verdicts(normalized@, from as int, to as int, resolution_minutes as int),
            !normalized@.is_empty(),
            all == expected(from as int, to as int, resolution_minutes as int),
            representable(from as int),
            representable(to as int),
            forall|j: int| 0 <= j < all.len() ==> from < #[trigger] all[j] < to,
            out@.len() == i,
            forall|j: int| 0 <= j < i ==> (#[trigger] out@[j])@ == line_text(all[j], v[j]),
        decreases times.len() - i,
    {
        let t = times[i];
        assert(as_ints(times@)[i as int] == t);
        assert(from < all[i as int] < to);
        match verdict_line(t, verdict_for(normalized, t)) {
            Ok(line) => {
                out.push(line);
            },
            Err(e) => {
                return Err(e);
            },
        }
        i += 1;
    }
    Ok(out)
}

/// Audits one window against a response as the endpoint sent it.
///
/// Fails with [`AuditError::Schema`] when the columns of the response differ in
/// length.  A response without any candle is reported as such, whatever the
/// window.  Otherwise the audit fails with [`AuditError::Arithmetic`] when an end
/// of the window is no instant that UTC calendar time can hold.
pub fn audit_response<P: Copy>(
    from: Time,
    to: Time,
    resolution_minutes: u32,
    response: &ApiResult<P>,
) -> (r: Result<WindowOutcome, AuditError>)
    requires
        resolution_minutes > 0,
    ensures
        r is Ok <==> response.well_formed() && (response.time@.len() == 0 || (representable(
            from as int,
        ) && representable(to as int))),
        r matches Ok(outcome) ==> outcome.reports(
            response.rows(),
            from as int,
            to as int,
            resolution_minutes as int,
        ),
        r matches Ok(outcome) ==> (outcome is NoResults <==> response.time@.len() == 0),
        r matches Err(e) ==> e == (if response.well_formed() {
            AuditError::Arithmetic
        } else {
            AuditError::Schema
        }),
{
    let normalized = match StructuredApiResult::normalize(response) {
        Ok(normalized) => normalized,
        Err(e) => {
            return Err(e);
        },
    };
    proof {
        response.lemma_rows_round_trip();
    }
    if normalized.is_empty() {
        return Ok(WindowOutcome::NoResults);
    }
    let found = match audit(from, to, resolution_minutes, &normalized) {
        Ok(found) => found,
        Err(e) => {
            return Err(e);
        },
    };
    let lines = match audit_lines(from, to, resolution_minutes, &normalized) {
        Ok(lines) => lines,
        Err(e) => {
            return Err(e);
        },
    };
    Ok(WindowOutcome::Audited { verdicts: found, lines })
}

} // verus!
