//! What this device can do.

use vstd::prelude::*;

verus! {

/// What was found out about the device when the process started.
#[derive(Debug, Clone, Copy, PartialEq, Eq)]
pub struct AppCapabilities {
    pub fast_recording_enabled: bool,
}

impl AppCapabilities {
    /// Fast recording is there where its preparation says so, and not where it
    /// failed.
    pub fn detect_at_startup(prepared: &Result<bool, String>) -> (r: Self)
        ensures
            r.fast_recording_enabled == (*prepared matches Ok(enabled) && enabled),
    {
        let fast_recording_enabled = match prepared {
            Ok(enabled) => *enabled,
            Err(_) => false,
        };
        AppCapabilities { fast_recording_enabled }
    }
}

/// Fast recording is there exactly where it was prepared.
pub proof fn law_capability_is_there_where_it_was_prepared(
    prepared: &Result<bool, String>,
    r: AppCapabilities,
)
    requires
        call_ensures(AppCapabilities::detect_at_startup, (prepared,), r),
    ensures
        r.fast_recording_enabled <==> *prepared == Ok::<bool, String>(true),
{
}

} // verus!
