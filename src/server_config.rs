use vstd::prelude::*;

verus! {

/// Settings of the query server.
#[derive(Debug, Clone)]
pub struct ServerConfig {
    pub port: u16,
}

pub fn default_port() -> (r: u16)
    ensures
        r == 6789,
{
    6789
}

impl Default for ServerConfig {
    fn default() -> (r: ServerConfig)
        ensures
            r.port == 6789,
    {
        ServerConfig { port: default_port() }
    }
}

} // verus!
