use vstd::prelude::*;

verus! {

/// Relies on std::time::SystemTime::now: reads the wall clock and reduces
/// it to microseconds since the Unix epoch, negative for a clock set
/// before it, so that no reading can make the call abort. Nothing is
/// promised of the result; the clock is outside this library's control,
/// and last-writer-wins arbitration is only as good as the clocks of the
/// replicas involved.
#[verifier::external_body]
pub(crate) fn now_micros() -> i64 {
    match std::time::SystemTime::now().duration_since(std::time::UNIX_EPOCH) {
        Ok(since) => since.as_micros() as i64,
        Err(before) => -(before.duration().as_micros() as i64),
    }
}

} // verus!
