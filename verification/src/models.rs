//! The session record that the directory hands out, and the rule that says
//! whether its downstream target may be forwarded to.

use crate::text::str_equal;
use vstd::prelude::*;

verus! {

/// One mapping of the session directory: an identifier, the base URL of the
/// downstream target, and the target's status as the directory reports it.
#[derive(Debug, Clone, PartialEq, Eq)]
pub struct Session {
    /// Session ID
    pub session_id: String,
    /// Downstream server URL
    pub downstream_server_url: String,
    /// Downstream server status
    pub downstream_server_status: String,
}

/// Whether a status marks a target as available: it is exactly `active`,
/// `online` or `ready`.
pub open spec fn is_available_status(status: Seq<char>) -> bool {
    status == "active"@ || status == "online"@ || status == "ready"@
}

impl Session {
    /// Whether the downstream target may be forwarded to.
    pub fn is_available(&self) -> (available: bool)
        ensures
            available == is_available_status(self.downstream_server_status@),
    {
        let status = self.downstream_server_status.as_str();
        str_equal(status, "active") || str_equal(status, "online") || str_equal(status, "ready")
    }
}

} // verus!
