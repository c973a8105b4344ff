use vstd::prelude::*;

verus! {

/// The current time as whole seconds since the Unix epoch.
///
/// Calls `chrono::Utc::now()` and `DateTime::timestamp`. The value depends on
/// the machine's clock, so the contract only says that it is not negative
/// (`Utc::now` builds it from a `u64` count of seconds). `Utc::now` panics when
/// the system clock reads a time before 1970; nothing here rules that out.
#[verifier::external_body]
pub fn now_seconds() -> (t: i64)
    ensures
        t >= 0,
{
    chrono::Utc::now().timestamp()
}

} // verus!
