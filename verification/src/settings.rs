//! Process settings.
//!
//! The values the surrounding process needs to come up: where to listen,
//! how to log, and where the store lives. Loading them from files or the
//! environment belongs to the configuration collaborator outside this
//! library; here is only the shape they arrive in.

use vstd::prelude::*;

verus! {

/// The settings the service is started with.
pub struct Settings {
    /// Address the request layer listens on.
    pub listen_addr: String,
    /// Logging directive handed to the logger.
    pub logging: String,
    /// Address of the backing key-value store.
    pub redis_addr: String,
}

} // verus!
