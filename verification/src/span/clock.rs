//! Reading the instants of a span record as Unix times: the call into
//! `fastant` that needs the record's private instants.

use vstd::prelude::*;
use fastant::Anchor;
use super::RawSpan;

verus! {

/// Calls `fastant::Instant::as_unix_nanos` on the start and on the end of a
/// span, against one anchor. The results depend on the anchor's clock
/// readings and on the machine's cycle calibration, so nothing is claimed of
/// them.
///
/// The outside function subtracts without a check when an instant lies
/// further before the anchor than the anchor lies after the Unix epoch. The
/// `requires` admits only records whose two instants fastant read from the
/// clock (the flags are private to `SpanTimes` and set only next to those
/// readings, in `SpanTimes::open` and `SpanTimes::close`): a reading is never further before a
/// later anchor than the time elapsed since it was taken, and the clock is
/// read after the Unix epoch (as `Anchor::new`, which made the anchor, itself
/// demands of the machine).
#[verifier::external_body]
pub fn span_unix_nanos(span: &RawSpan, anchor: &Anchor) -> (nanos: (u64, u64))
    requires
        span.is_stamped(),
{
    (span.times.start.as_unix_nanos(anchor), span.times.end.as_unix_nanos(anchor))
}

} // verus!
