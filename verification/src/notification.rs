//! Desktop notification policy.
//!
//! Sending is done by a desktop collaborator outside this crate; the policy
//! verified here picks how long a notification stays up from the urgency of
//! the score it reports.

use vstd::prelude::*;

verus! {

pub struct NotificationManager;

/// Display time by urgency: three seconds up to 30, five seconds up to 70,
/// ten seconds above.
pub open spec fn timeout_millis_spec(urgency: u8) -> int {
    if urgency <= 30 {
        3000
    } else if urgency <= 70 {
        5000
    } else {
        10_000
    }
}

impl NotificationManager {
    pub fn new() -> (r: NotificationManager) {
        NotificationManager
    }

    /// How long a notification of the given urgency stays up, in
    /// milliseconds.
    pub fn timeout_millis(&self, urgency: u8) -> (r: u32)
        ensures
            r == timeout_millis_spec(urgency),
    {
        if urgency <= 30 {
            3000
        } else if urgency <= 70 {
            5000
        } else {
            10_000
        }
    }
}

} // verus!
