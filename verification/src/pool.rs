//! The limits of the pool of read connections.

use vstd::prelude::*;

verus! {

/// How the pool of read connections is set up.
pub struct ReadPoolConfig {
    /// How many connections may be open at once.
    pub max_size: u32,
    /// How many connections are kept open while unused.
    pub min_idle: Option<u32>,
    /// How many seconds a reader waits for a connection.
    pub connection_timeout_secs: u64,
}

impl ReadPoolConfig {
    /// Whether a pool can be built with these limits: it may hold at least one
    /// connection, keeps no more than it may hold, and waits some time.
    pub open spec fn is_valid(&self) -> bool {
        &&& self.max_size > 0
        &&& self.min_idle matches Some(idle) ==> idle <= self.max_size
        &&& self.connection_timeout_secs > 0
    }
}

/// The limits of the read pool: ten connections at most, two kept ready, and
/// thirty seconds of waiting.
pub fn read_pool_config() -> (config: ReadPoolConfig)
    ensures
        config.max_size == 10,
        config.min_idle == Some(2u32),
        config.connection_timeout_secs == 30,
        config.is_valid(),
{
    ReadPoolConfig { max_size: 10, min_idle: Some(2), connection_timeout_secs: 30 }
}

} // verus!
