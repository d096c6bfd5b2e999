use vstd::prelude::*;

verus! {

/// Calls `Clock::get` of `anchor_lang` and hands out the `unix_timestamp` of
/// the reading, or `None` where the runtime gives no reading. The reading
/// depends on when and where the call is made, so nothing is claimed of it.
#[verifier::external_body]
pub(crate) fn unix_timestamp() -> (now: Option<i64>) {
    match <anchor_lang::prelude::Clock as anchor_lang::prelude::SolanaSysvar>::get() {
        Ok(clock) => Some(clock.unix_timestamp),
        Err(_) => None,
    }
}

} // verus!
