use vstd::prelude::*;

verus! {

/// What the bootstrap needs to start the relay: where to listen, and where
/// the logging sink lives. The core never reads it; the loader at the edge
/// fills it in and hands the listen address to the listener.
pub struct Config {
    pub loki_address: String,
    pub server_address: String,
}

impl Config {
    /// A configuration from plain values, as the loader hands them over.
    pub fn new(loki_address: String, server_address: String) -> (r: Config)
        ensures
            r.loki_address@ == loki_address@,
            r.server_address@ == server_address@,
    {
        Config { loki_address, server_address }
    }
}

} // verus!
