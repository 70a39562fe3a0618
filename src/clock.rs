use vstd::prelude::*;

verus! {

/// Relies on `SystemTime::duration_since`: whole seconds from the Unix epoch to
/// now, or 0 when the system clock reads earlier than the epoch. Nothing is
/// promised of the value: it depends on the clock.
#[verifier::external_body]
pub(crate) fn unix_now_secs() -> (r: u64) {
    match std::time::SystemTime::now().duration_since(std::time::UNIX_EPOCH) {
        Ok(d) => d.as_secs(),
        Err(_) => 0,
    }
}

} // verus!
